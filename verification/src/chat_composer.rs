//! The chat composer: the text the user is typing, with its popups (slash
//! commands, `@file` search), history recall, paste placeholders, attached
//! images and the heuristic that tells a burst of pasted characters from
//! typing.
//!
//! Time is passed in by the caller as a reading of a monotonic clock in
//! nanoseconds. Requests for the application (start a file search, fetch a
//! history entry) are queued and taken with `take_events`.
use vstd::prelude::*;
use crate::chat_composer_history::{ChatComposerHistory, HistoryEffect, HistoryView};
use crate::command_popup::{filter_for_text, filtered, reselect, CommandPopup};
use crate::composer_text::{
    at_token_at, at_token_chars, image_placeholder, image_placeholder_text, is_image_path,
    is_image_path_spec, paste_placeholder, paste_placeholder_text, token_bounds,
    LARGE_PASTE_CHAR_THRESHOLD,
};
use crate::file_search_popup::{FileMatch, FileSearchPopup};
use crate::key::{KeyCode, KeyEvent};
use crate::placeholders::{
    expand_pastes, find_placeholder_removal, image_placeholders, image_view, paste_placeholders,
    paste_view, pastes_without, phs_of, placeholder_removal, placeholders_nonempty,
    count_ph, lemma_retained_images_count, lemma_retained_pastes_filter, remove_pastes_with, retain_images, retain_pastes, retained_images, retained_pastes,
    strip_images, AttachedImage, Removal,
};
use crate::slash_command::{command_name, SlashCommand};
use crate::text::{
    byte_len, chars_of, contains_seq, count_matches, chars_within, first_line, first_line_bounds, starts_with, string_from,
    trim, trim_start,
};
use crate::textarea::{
    byte_offset_sat, cursor_after_splice, insert_at, key_edit, splice, TextArea,
};

verus! {

/// Characters arriving at most this far apart (ns) count as one burst.
pub const PASTE_BURST_CHAR_INTERVAL_NS: u64 = 8_000_000;

/// After a burst, Enter inserts a newline for this long (ns).
pub const PASTE_ENTER_SUPPRESS_WINDOW_NS: u64 = 120_000_000;

/// Characters in a row that make a burst.
pub const PASTE_BURST_MIN_CHARS: u16 = 3;

/// Latest clock reading the composer accepts, so that the suppression
/// window can always be added to it.
pub const MAX_CLOCK_NS: u64 = 18_446_744_073_589_551_615;

/// What a key press produced.
#[derive(Debug)]
pub enum InputResult {
    Submitted(String),
    Command(SlashCommand),
    Nothing,
}

/// A request for the application.
#[derive(Debug)]
pub enum ComposerEvent {
    /// Search files for this query.
    StartFileSearch(String),
    /// Fetch the persistent history entry at `offset` of log `log_id`.
    GetHistoryEntry { log_id: u64, offset: usize },
}

/// Token counts of a model turn.
#[derive(Debug, Clone, Copy, PartialEq, Eq, Structural)]
pub struct TokenUsage {
    pub input_tokens: u64,
    pub cached_input_tokens: Option<u64>,
    pub output_tokens: u64,
    pub reasoning_output_tokens: Option<u64>,
    pub total_tokens: u64,
}

/// Token usage shown under the composer.
#[derive(Debug, Clone, Copy, PartialEq, Eq, Structural)]
pub struct TokenUsageInfo {
    pub total_token_usage: TokenUsage,
    pub last_token_usage: TokenUsage,
    pub model_context_window: Option<u64>,
    /// Tokens already in the context before the user's first message.
    pub initial_prompt_tokens: u64,
}

enum ActivePopup {
    Hidden,
    Command(CommandPopup),
    File(FileSearchPopup),
}

/// Abstract state of the popup.
pub enum PopupView {
    Hidden,
    Command { filter: Seq<char>, selected: Option<usize> },
    File {
        display: Seq<char>,
        pending: Seq<char>,
        waiting: bool,
        matches: Seq<Seq<char>>,
        selected: Option<usize>,
    },
}

/// Abstract form of a queued request.
pub enum EventView {
    StartFileSearch(Seq<char>),
    GetHistoryEntry(u64, usize),
}

/// Abstract form of a key's result.
pub enum ResultView {
    Submitted(Seq<char>),
    Command(SlashCommand),
    Nothing,
}

/// State of the paste-burst heuristic.
pub struct BurstView {
    pub last_char: Option<u64>,
    pub count: u16,
    pub until: Option<u64>,
    pub buffer: Seq<char>,
    pub active: bool,
}

/// Abstract state of the composer.
pub struct ComposerView {
    pub text: Seq<char>,
    /// Cursor as a character position.
    pub cursor: int,
    pub popup: PopupView,
    pub history: HistoryView,
    pub pastes: Seq<(Seq<char>, Seq<char>)>,
    pub images: Seq<(Seq<char>, Seq<char>)>,
    pub dismissed: Option<Seq<char>>,
    pub file_query: Option<Seq<char>>,
    pub burst: BurstView,
    pub events: Seq<EventView>,
    pub pending_image: Option<Seq<char>>,
    pub ctrl_c_quit_hint: bool,
    pub esc_backtrack_hint: bool,
    pub has_focus: bool,
    /// The text shown while the composer is empty.
    pub placeholder: Seq<char>,
    /// Whether the footer hints Shift+Enter for a newline.
    pub shift_enter_hint: bool,
    /// The token usage last reported.
    pub token_usage: Option<TokenUsageInfo>,
}

pub open spec fn result_view(r: InputResult) -> ResultView {
    match r {
        InputResult::Submitted(s) => ResultView::Submitted(s@),
        InputResult::Command(c) => ResultView::Command(c),
        InputResult::Nothing => ResultView::Nothing,
    }
}

pub open spec fn event_view(e: ComposerEvent) -> EventView {
    match e {
        ComposerEvent::StartFileSearch(q) => EventView::StartFileSearch(q@),
        ComposerEvent::GetHistoryEntry { log_id, offset } => EventView::GetHistoryEntry(log_id, offset),
    }
}

pub open spec fn events_view(v: Seq<ComposerEvent>) -> Seq<EventView> {
    v.map_values(|e: ComposerEvent| event_view(e))
}

// ---------------------------------------------------------------------
// The transitions, over the abstract state.
// ---------------------------------------------------------------------

/// The first line of `t` starts with '/'.
pub open spec fn slash_first_line(t: Seq<char>) -> bool {
    first_line(t).len() > 0 && first_line(t)[0] == '/'
}

/// Show, update or hide the slash-command popup after the text changed.
pub open spec fn synced_command(v: ComposerView) -> ComposerView {
    let f = filter_for_text(first_line(v.text));
    match v.popup {
        PopupView::Command { filter, selected } => if slash_first_line(v.text) {
            ComposerView {
                popup: PopupView::Command { filter: f, selected: reselect(selected, filtered(f).len()) },
                ..v
            }
        } else {
            ComposerView { popup: PopupView::Hidden, ..v }
        },
        _ => if slash_first_line(v.text) {
            ComposerView {
                popup: PopupView::Command { filter: f, selected: reselect(None, filtered(f).len()) },
                ..v
            }
        } else {
            v
        },
    }
}

/// The file popup of a new search, before any result.
pub open spec fn new_file_popup() -> PopupView {
    PopupView::File {
        display: Seq::empty(),
        pending: Seq::empty(),
        waiting: true,
        matches: Seq::empty(),
        selected: None,
    }
}

/// The file popup showing the hint for an empty query.
pub open spec fn empty_prompt_popup() -> PopupView {
    PopupView::File {
        display: Seq::empty(),
        pending: Seq::empty(),
        waiting: false,
        matches: Seq::empty(),
        selected: None,
    }
}

/// A file popup after the query became `q`: matches are kept while `q`
/// extends the query they were found for.
pub open spec fn popup_with_query(f: PopupView, q: Seq<char>) -> PopupView {
    match f {
        PopupView::File { display, pending, waiting, matches, selected } => if q == pending {
            f
        } else if starts_with(q, display) {
            PopupView::File { display, pending: q, waiting: true, matches, selected }
        } else {
            PopupView::File {
                display,
                pending: q,
                waiting: true,
                matches: Seq::empty(),
                selected: None,
            }
        },
        _ => f,
    }
}

/// The file popup for query `q`, starting from popup `prev`.
pub open spec fn file_popup_for(prev: PopupView, q: Seq<char>) -> PopupView {
    if q.len() == 0 {
        empty_prompt_popup()
    } else {
        match prev {
            PopupView::File { .. } => popup_with_query(prev, q),
            _ => popup_with_query(new_file_popup(), q),
        }
    }
}

/// Show, update or hide the file popup for the `@token` under the cursor;
/// a query the user dismissed stays hidden until it changes, and a
/// non-empty query starts a search.
pub open spec fn synced_file(v: ComposerView) -> ComposerView {
    match at_token_at(v.text, v.cursor) {
        None => ComposerView { popup: PopupView::Hidden, dismissed: None, ..v },
        Some(q) => if v.dismissed == Some(q) {
            v
        } else {
            ComposerView {
                events: if q.len() > 0 {
                    v.events.push(EventView::StartFileSearch(q))
                } else {
                    v.events
                },
                popup: file_popup_for(v.popup, q),
                file_query: Some(q),
                dismissed: None,
                ..v
            }
        },
    }
}

/// Both popups brought up to date.
pub open spec fn synced_both(v: ComposerView) -> ComposerView {
    synced_file(synced_command(v))
}

/// The popups after a key: the file popup is left alone while the command
/// popup shows.
pub open spec fn after_key(v: ComposerView) -> ComposerView {
    let c = synced_command(v);
    if c.popup is Command {
        ComposerView { dismissed: None, ..c }
    } else {
        synced_file(c)
    }
}

/// Insert `t` at the cursor.
pub open spec fn inserted(v: ComposerView, t: Seq<char>) -> ComposerView {
    ComposerView { text: insert_at(v.text, v.cursor, t), cursor: v.cursor + t.len(), ..v }
}

/// A paste: large ones become a placeholder that remembers the text.
/// Pasting ends the burst heuristic and refreshes both popups.
pub open spec fn after_paste(v: ComposerView, p: Seq<char>) -> ComposerView {
    let v1 = if p.len() > LARGE_PASTE_CHAR_THRESHOLD {
        let ph = paste_placeholder_text(p.len());
        ComposerView { pastes: v.pastes.push((ph, p)), ..inserted(v, ph) }
    } else {
        inserted(v, p)
    };
    let v2 = ComposerView {
        burst: BurstView { last_char: None, count: 0, until: None, ..v1.burst },
        ..v1
    };
    synced_both(v2)
}

/// The buffered burst is handed over as a paste.
pub open spec fn flushed(v: ComposerView) -> ComposerView {
    after_paste(
        ComposerView { burst: BurstView { buffer: Seq::empty(), active: false, ..v.burst }, ..v },
        v.burst.buffer,
    )
}

/// Nanoseconds from `t` to `now` (none when `t` is later).
pub open spec fn elapsed(now: u64, t: u64) -> int {
    if now >= t {
        now - t
    } else {
        0
    }
}

/// The end of the suppression window that starts at `now`.
pub open spec fn window_end(now: u64) -> Option<u64> {
    Some((now + PASTE_ENTER_SUPPRESS_WINDOW_NS) as u64)
}

/// A burst is being captured.
pub open spec fn capturing(v: ComposerView) -> bool {
    v.burst.active || v.burst.buffer.len() > 0
}

/// A key applied to the text area; pastes whose placeholder is gone are
/// dropped.
pub open spec fn typed(v: ComposerView, key: KeyEvent) -> ComposerView {
    let (t, c) = key_edit(v.text, v.cursor, key);
    ComposerView { text: t, cursor: c as int, pastes: retained_pastes(v.pastes, t), ..v }
}

/// Apply a placeholder removal.
pub open spec fn removed(v: ComposerView, r: Removal) -> ComposerView {
    match r {
        Removal::Image { start, end, index } => ComposerView {
            text: splice(v.text, start as int, end as int, Seq::empty()),
            cursor: cursor_after_splice(v.cursor, start as int, end as int, 0),
            images: v.images.remove(index as int),
            ..v
        },
        Removal::Paste { start, end, index } => ComposerView {
            text: splice(v.text, start as int, end as int, Seq::empty()),
            cursor: cursor_after_splice(v.cursor, start as int, end as int, 0),
            pastes: pastes_without(v.pastes, v.pastes[index as int].0),
            ..v
        },
    }
}

/// The placeholder Backspace would remove.
pub open spec fn removal_of(v: ComposerView) -> Option<Removal> {
    placeholder_removal(v.text, v.cursor, phs_of(v.images), phs_of(v.pastes))
}

/// An edit key that is not a plain character: Backspace on a placeholder
/// removes it whole; otherwise the key goes to the text area, keys other
/// than characters and Enter end the burst, and pastes and images whose
/// placeholders are gone are dropped.
pub open spec fn edited(v: ComposerView, key: KeyEvent) -> ComposerView {
    if key.code == KeyCode::Backspace && removal_of(v) is Some {
        removed(v, removal_of(v)->0)
    } else {
        let (t, c) = key_edit(v.text, v.cursor, key);
        let burst = match key.code {
            KeyCode::Char(_) => if key.modifiers.control || key.modifiers.alt {
                BurstView { last_char: None, count: 0, until: None, buffer: Seq::empty(), active: false }
            } else {
                v.burst
            },
            KeyCode::Enter => v.burst,
            _ => BurstView { last_char: None, count: 0, until: None, active: false, ..v.burst },
        };
        ComposerView {
            text: t,
            cursor: c as int,
            burst,
            pastes: retained_pastes(v.pastes, t),
            images: retained_images(v.images, t),
            ..v
        }
    }
}

/// A plain character (no Control or Alt): counted for the burst heuristic,
/// then buffered while a burst is captured or starts (unless a slash
/// command is being typed), or typed.
pub open spec fn plain_char(v: ComposerView, key: KeyEvent, ch: char, now: u64) -> ComposerView {
    let count = match v.burst.last_char {
        Some(prev) => if elapsed(now, prev) <= PASTE_BURST_CHAR_INTERVAL_NS {
            if v.burst.count < u16::MAX {
                (v.burst.count + 1) as u16
            } else {
                u16::MAX
            }
        } else {
            1u16
        },
        None => 1u16,
    };
    let v2 = ComposerView { burst: BurstView { count, last_char: Some(now), ..v.burst }, ..v };
    if v2.burst.active {
        ComposerView {
            burst: BurstView { buffer: v2.burst.buffer.push(ch), until: window_end(now), ..v2.burst },
            ..v2
        }
    } else if count >= PASTE_BURST_MIN_CHARS {
        if slash_first_line(v2.text) {
            typed(ComposerView { burst: BurstView { until: window_end(now), ..v2.burst }, ..v2 }, key)
        } else {
            ComposerView {
                burst: BurstView {
                    buffer: v2.burst.buffer.push(ch),
                    active: true,
                    until: window_end(now),
                    ..v2.burst
                },
                ..v2
            }
        }
    } else {
        typed(v2, key)
    }
}

/// Generic editing keys. A burst buffered for longer than the burst
/// interval is first flushed as a paste; Enter during a burst is buffered.
pub open spec fn basic_key(v: ComposerView, key: KeyEvent, now: u64) -> (ComposerView, ResultView) {
    let timed_out = match v.burst.last_char {
        Some(t) => elapsed(now, t) > PASTE_BURST_CHAR_INTERVAL_NS,
        None => false,
    };
    let v1 = if timed_out && capturing(v) {
        flushed(v)
    } else {
        v
    };
    if key.code == KeyCode::Enter && capturing(v1) {
        (
            ComposerView {
                burst: BurstView { buffer: v1.burst.buffer.push('\n'), until: window_end(now), ..v1.burst },
                ..v1
            },
            ResultView::Nothing,
        )
    } else {
        match key.code {
            KeyCode::Char(ch) => if !key.modifiers.control && !key.modifiers.alt {
                (plain_char(v1, key, ch, now), ResultView::Nothing)
            } else {
                let v2 = if capturing(v1) {
                    flushed(v1)
                } else {
                    v1
                };
                (edited(v2, key), ResultView::Nothing)
            },
            _ => (edited(v1, key), ResultView::Nothing),
        }
    }
}

/// The history after submitting `t`: recorded when non-empty (and the
/// history can still count it).
pub open spec fn recorded(h: HistoryView, t: Seq<char>) -> HistoryView {
    if t.len() > 0 && h.total() < usize::MAX {
        HistoryView { local: h.local.push(t), cursor: None, last_text: None, ..h }
    } else {
        h
    }
}

/// The composer emptied after a submission.
pub open spec fn cleared(v: ComposerView) -> ComposerView {
    ComposerView { text: Seq::empty(), cursor: 0, pastes: Seq::empty(), ..v }
}

/// Enter without modifiers and without a popup to take it.
pub open spec fn enter_key(v: ComposerView, now: u64) -> (ComposerView, ResultView) {
    let in_slash = v.popup is Command || slash_first_line(v.text);
    if capturing(v) && !in_slash {
        (
            ComposerView {
                burst: BurstView { buffer: v.burst.buffer.push('\n'), until: window_end(now), ..v.burst },
                ..v
            },
            ResultView::Nothing,
        )
    } else if v.pastes.len() > 0 {
        let t = expand_pastes(v.text, v.pastes);
        if t.len() == 0 {
            (cleared(v), ResultView::Nothing)
        } else {
            (ComposerView { history: recorded(v.history, t), ..cleared(v) }, ResultView::Submitted(t))
        }
    } else {
        let tight = match v.burst.last_char {
            Some(t) => elapsed(now, t) <= PASTE_BURST_CHAR_INTERVAL_NS,
            None => false,
        };
        let recent = match v.burst.last_char {
            Some(t) => elapsed(now, t) <= PASTE_ENTER_SUPPRESS_WINDOW_NS,
            None => false,
        };
        let by_count = recent && v.burst.count >= PASTE_BURST_MIN_CHARS;
        let in_window = match v.burst.until {
            Some(u) => now <= u,
            None => false,
        };
        if tight || by_count || in_window {
            (
                ComposerView {
                    burst: BurstView { until: window_end(now), ..v.burst },
                    ..inserted(v, seq!['\n'])
                },
                ResultView::Nothing,
            )
        } else {
            let t = trim(strip_images(expand_pastes(v.text, v.pastes), v.images));
            (ComposerView { history: recorded(v.history, t), ..cleared(v) }, ResultView::Submitted(t))
        }
    }
}

/// Up/Down browse the history only when there is history and the composer
/// is empty or still shows the recalled entry with the cursor at the start.
pub open spec fn navigates(v: ComposerView) -> bool {
    v.history.total() > 0 && (v.text.len() == 0 || (byte_offset_sat(v.text, v.cursor) == 0
        && v.history.last_text == Some(v.text)))
}

/// The history entry that the cursor moves to, its text if known and the
/// fetch request otherwise.
pub open spec fn history_shown(h: HistoryView, idx: int) -> (HistoryView, Option<Seq<char>>, Option<(u64, usize)>) {
    match h.known_text(idx) {
        Some(t) => (HistoryView { cursor: Some(idx as usize), last_text: Some(t), ..h }, Some(t), None),
        None => (
            HistoryView { cursor: Some(idx as usize), ..h },
            None,
            match h.log_id {
                Some(id) => Some((id, idx as usize)),
                None => None,
            },
        ),
    }
}

/// Up in the history.
pub open spec fn history_up(h: HistoryView) -> (HistoryView, Option<Seq<char>>, Option<(u64, usize)>) {
    if h.total() == 0 || h.cursor == Some(0usize) {
        (h, None, None)
    } else {
        history_shown(
            h,
            match h.cursor {
                Some(c) => c - 1,
                None => h.total() - 1,
            },
        )
    }
}

/// Down in the history.
pub open spec fn history_down(h: HistoryView) -> (HistoryView, Option<Seq<char>>, Option<(u64, usize)>) {
    match h.cursor {
        None => (h, None, None),
        Some(c) => if h.total() == 0 {
            (h, None, None)
        } else if c + 1 >= h.total() {
            (
                HistoryView { cursor: None, last_text: Some(Seq::empty()), ..h },
                Some(Seq::empty()),
                None,
            )
        } else {
            history_shown(h, c + 1)
        },
    }
}

/// A key when no popup shows.
pub open spec fn no_popup_key(v: ComposerView, key: KeyEvent, now: u64) -> (ComposerView, ResultView) {
    if (key.code == KeyCode::Up || key.code == KeyCode::Down) && navigates(v) {
        let (h, text, req) = if key.code == KeyCode::Up {
            history_up(v.history)
        } else {
            history_down(v.history)
        };
        let v1 = ComposerView {
            history: h,
            events: match req {
                Some((id, off)) => v.events.push(EventView::GetHistoryEntry(id, off)),
                None => v.events,
            },
            ..v
        };
        match text {
            Some(t) => (ComposerView { text: t, cursor: 0, ..v1 }, ResultView::Nothing),
            None => basic_key(v1, key, now),
        }
    } else if key.code == KeyCode::Enter && key.modifiers.is_none() {
        enter_key(v, now)
    } else {
        basic_key(v, key, now)
    }
}

/// The command selected in the slash popup.
pub open spec fn selected_command_of(p: PopupView) -> Option<SlashCommand> {
    match p {
        PopupView::Command { filter, selected } => match selected {
            Some(i) => if i < filtered(filter).len() {
                Some(filtered(filter)[i as int])
            } else {
                None
            },
            None => None,
        },
        _ => None,
    }
}

/// A key while the slash-command popup shows: arrows move the selection,
/// Tab completes the selected command, Enter dispatches it.
pub open spec fn slash_popup_key(v: ComposerView, key: KeyEvent, now: u64) -> (ComposerView, ResultView) {
    match v.popup {
        PopupView::Command { filter, selected } => if key.code == KeyCode::Up {
            (
                ComposerView {
                    popup: PopupView::Command {
                        filter,
                        selected: match selected {
                            Some(i) => Some((if i > 0 { i - 1 } else { 0 }) as usize),
                            None => if filtered(filter).len() > 0 {
                                Some(0usize)
                            } else {
                                None
                            },
                        },
                    },
                    ..v
                },
                ResultView::Nothing,
            )
        } else if key.code == KeyCode::Down {
            (
                ComposerView {
                    popup: PopupView::Command {
                        filter,
                        selected: if filtered(filter).len() == 0 {
                            None
                        } else {
                            match selected {
                                Some(i) => Some(
                                    (if i + 1 < filtered(filter).len() {
                                        i + 1
                                    } else {
                                        i as int
                                    }) as usize,
                                ),
                                None => Some(0usize),
                            }
                        },
                    },
                    ..v
                },
                ResultView::Nothing,
            )
        } else if key.code == KeyCode::Tab {
            match selected_command_of(v.popup) {
                Some(cmd) => {
                    let word = "/"@ + command_name(cmd);
                    let t = if starts_with(trim_start(first_line(v.text)), word) {
                        v.text
                    } else {
                        word + " "@
                    };
                    (ComposerView { text: t, cursor: t.len() as int, ..v }, ResultView::Nothing)
                },
                None => (v, ResultView::Nothing),
            }
        } else if key.code == KeyCode::Enter && key.modifiers.is_none() {
            match selected_command_of(v.popup) {
                Some(cmd) => (
                    ComposerView { text: Seq::empty(), cursor: 0, popup: PopupView::Hidden, ..v },
                    ResultView::Command(cmd),
                ),
                None => no_popup_key(v, key, now),
            }
        } else {
            basic_key(v, key, now)
        },
        _ => (v, ResultView::Nothing),
    }
}

/// The text with the token under the cursor replaced by `path` and a space,
/// the cursor after the space.
pub open spec fn path_inserted(v: ComposerView, path: Seq<char>) -> ComposerView {
    let (a, b) = token_bounds(v.text, v.cursor);
    ComposerView {
        text: v.text.take(a) + path + seq![' '] + v.text.skip(b),
        cursor: a + path.len() + 1,
        ..v
    }
}

/// A key while the file popup shows: arrows move the selection, Esc hides
/// the popup until the query changes, Tab or Enter accept the selected path
/// (an image path waits for its dimensions).
pub open spec fn file_popup_key(v: ComposerView, key: KeyEvent, now: u64) -> (ComposerView, ResultView) {
    match v.popup {
        PopupView::File { display, pending, waiting, matches, selected } => if key.code == KeyCode::Up {
            (
                ComposerView {
                    popup: PopupView::File {
                        display,
                        pending,
                        waiting,
                        matches,
                        selected: match selected {
                            Some(i) => Some((if i > 0 { i - 1 } else { 0 }) as usize),
                            None => None,
                        },
                    },
                    ..v
                },
                ResultView::Nothing,
            )
        } else if key.code == KeyCode::Down {
            (
                ComposerView {
                    popup: PopupView::File {
                        display,
                        pending,
                        waiting,
                        matches,
                        selected: match selected {
                            Some(i) => Some(
                                (if i + 1 < matches.len() {
                                    i + 1
                                } else {
                                    i as int
                                }) as usize,
                            ),
                            None => if matches.len() > 0 {
                                Some(0usize)
                            } else {
                                None
                            },
                        },
                    },
                    ..v
                },
                ResultView::Nothing,
            )
        } else if key.code == KeyCode::Esc {
            (
                ComposerView {
                    dismissed: match at_token_at(v.text, v.cursor) {
                        Some(t) => Some(t),
                        None => v.dismissed,
                    },
                    popup: PopupView::Hidden,
                    ..v
                },
                ResultView::Nothing,
            )
        } else if key.code == KeyCode::Tab || (key.code == KeyCode::Enter && key.modifiers.is_none()) {
            match selected {
                None => (ComposerView { popup: PopupView::Hidden, ..v }, ResultView::Nothing),
                Some(i) => {
                    let path = matches[i as int];
                    if is_image_path_spec(path) {
                        (ComposerView { pending_image: Some(path), ..v }, ResultView::Nothing)
                    } else {
                        (
                            ComposerView { popup: PopupView::Hidden, ..path_inserted(v, path) },
                            ResultView::Nothing,
                        )
                    }
                },
            }
        } else {
            basic_key(v, key, now)
        },
        _ => (v, ResultView::Nothing),
    }
}

/// The full effect of a key: the handler of the popup that shows, then the
/// popups brought up to date (unless an image path awaits its dimensions).
pub open spec fn key_step(v: ComposerView, key: KeyEvent, now: u64) -> (ComposerView, ResultView) {
    let (v1, r) = match v.popup {
        PopupView::Command { .. } => slash_popup_key(v, key, now),
        PopupView::File { .. } => file_popup_key(v, key, now),
        PopupView::Hidden => no_popup_key(v, key, now),
    };
    if v1.pending_image is Some {
        (v1, r)
    } else {
        (after_key(v1), r)
    }
}

/// The format label of an image path by its extension.
pub open spec fn image_format_label(ext: Option<Seq<char>>) -> Seq<char> {
    match ext {
        Some(e) => if crate::text::ascii_lower(e) == "png"@ {
            "PNG"@
        } else if crate::text::ascii_lower(e) == "jpg"@ || crate::text::ascii_lower(e) == "jpeg"@ {
            "JPEG"@
        } else {
            "IMG"@
        },
        None => "IMG"@,
    }
}

/// An image attached at the cursor.
pub open spec fn image_attached(v: ComposerView, path: Seq<char>, w: u32, h: u32, label: Seq<char>) -> ComposerView {
    let ph = image_placeholder_text(w as nat, h as nat, label);
    ComposerView { images: v.images.push((ph, path)), ..inserted(v, ph) }
}

/// Finishing the selection of an image path once its dimensions are known:
/// the token becomes the image placeholder and a space, or, when the
/// dimensions could not be read, the path itself.
pub open spec fn image_selected(
    v: ComposerView,
    path: Seq<char>,
    dims: Option<(u32, u32)>,
    ext: Option<Seq<char>>,
) -> ComposerView {
    let v1 = match dims {
        Some((w, h)) => {
            let (a, b) = token_bounds(v.text, v.cursor);
            let v0 = ComposerView { text: splice(v.text, a, b, Seq::empty()), cursor: a, ..v };
            inserted(image_attached(v0, path, w, h, image_format_label(ext)), seq![' '])
        },
        None => path_inserted(v, path),
    };
    after_key(ComposerView { popup: PopupView::Hidden, pending_image: None, ..v1 })
}

/// The composer's requests are well formed and its parts consistent.
pub open spec fn view_wf(v: ComposerView) -> bool {
    &&& 0 <= v.cursor <= v.text.len()
    &&& placeholders_nonempty(v.pastes)
    &&& placeholders_nonempty(v.images)
    &&& v.history.wf()
    &&& v.history.total() <= usize::MAX
}

// ---------------------------------------------------------------------
// The composer.
// ---------------------------------------------------------------------

/// Name of the extension of a path (`Path::extension`): a pure function of
/// the path.
pub uninterp spec fn path_extension(path: Seq<char>) -> Option<Seq<char>>;

/// `std::path::Path::extension`, read as UTF-8.
#[verifier::external_body]
fn extension_of(path: &str) -> (r: Option<String>)
    ensures
        match r {
            Some(e) => path_extension(path@) == Some(e@),
            None => path_extension(path@) is None,
        },
{
    match std::path::Path::new(path).extension() {
        Some(e) => match e.to_str() {
            Some(s) => Some(s.to_string()),
            None => None,
        },
        None => None,
    }
}

pub struct ChatComposer {
    textarea: TextArea,
    active_popup: ActivePopup,
    history: ChatComposerHistory,
    ctrl_c_quit_hint: bool,
    esc_backtrack_hint: bool,
    use_shift_enter_hint: bool,
    dismissed_file_popup_token: Option<String>,
    current_file_query: Option<String>,
    pending_pastes: Vec<(String, String)>,
    token_usage_info: Option<TokenUsageInfo>,
    has_focus: bool,
    attached_images: Vec<AttachedImage>,
    placeholder_text: String,
    last_plain_char_time: Option<u64>,
    consecutive_plain_char_burst: u16,
    paste_burst_until: Option<u64>,
    paste_burst_buffer: Vec<char>,
    in_paste_burst_mode: bool,
    events: Vec<ComposerEvent>,
    pending_image: Option<String>,
}

pub open spec fn opt_view(o: Option<String>) -> Option<Seq<char>> {
    match o {
        Some(s) => Some(s@),
        None => None,
    }
}

impl ChatComposer {
    pub closed spec fn popup_view(&self) -> PopupView {
        match self.active_popup {
            ActivePopup::Hidden => PopupView::Hidden,
            ActivePopup::Command(p) => PopupView::Command { filter: p.filter(), selected: p.selected() },
            ActivePopup::File(p) => PopupView::File {
                display: p.display_query(),
                pending: p.pending_query(),
                waiting: p.is_waiting(),
                matches: p.match_paths(),
                selected: p.selected(),
            },
        }
    }

    /// The abstract state.
    pub closed spec fn model(&self) -> ComposerView {
        ComposerView {
            text: self.textarea.text_view(),
            cursor: self.textarea.cursor_view(),
            popup: self.popup_view(),
            history: self.history.view(),
            pastes: paste_view(self.pending_pastes@),
            images: image_view(self.attached_images@),
            dismissed: opt_view(self.dismissed_file_popup_token),
            file_query: opt_view(self.current_file_query),
            burst: BurstView {
                last_char: self.last_plain_char_time,
                count: self.consecutive_plain_char_burst,
                until: self.paste_burst_until,
                buffer: self.paste_burst_buffer@,
                active: self.in_paste_burst_mode,
            },
            events: events_view(self.events@),
            pending_image: opt_view(self.pending_image),
            ctrl_c_quit_hint: self.ctrl_c_quit_hint,
            esc_backtrack_hint: self.esc_backtrack_hint,
            has_focus: self.has_focus,
            placeholder: self.placeholder_text@,
            shift_enter_hint: self.use_shift_enter_hint,
            token_usage: self.token_usage_info,
        }
    }

    pub closed spec fn wf(&self) -> bool {
        &&& self.textarea.wf()
        &&& view_wf(self.model())
        &&& match self.active_popup {
            ActivePopup::Command(p) => p.wf(),
            ActivePopup::File(p) => p.wf(),
            ActivePopup::Hidden => true,
        }
    }

    pub closed spec fn placeholder_text_view(&self) -> Seq<char> {
        self.placeholder_text@
    }

    pub closed spec fn uses_shift_enter_hint(&self) -> bool {
        self.use_shift_enter_hint
    }

    pub closed spec fn token_usage_view(&self) -> Option<TokenUsageInfo> {
        self.token_usage_info
    }
}

impl ChatComposer {
    /// An empty composer.
    pub fn new(has_input_focus: bool, enhanced_keys_supported: bool, placeholder_text: String) -> (r:
        Self)
        ensures
            r.wf(),
            r.model().text.len() == 0,
            r.model().cursor == 0,
            r.model().popup is Hidden,
            r.model().history.log_id is None,
            r.model().history.total() == 0,
            r.model().history.cursor is None,
            r.model().pastes.len() == 0,
            r.model().images.len() == 0,
            r.model().dismissed is None,
            r.model().file_query is None,
            r.model().burst == (BurstView {
                last_char: None,
                count: 0,
                until: None,
                buffer: Seq::empty(),
                active: false,
            }),
            r.model().events.len() == 0,
            r.model().pending_image is None,
            !r.model().ctrl_c_quit_hint,
            !r.model().esc_backtrack_hint,
            r.model().has_focus == has_input_focus,
            r.placeholder_text_view() == placeholder_text@,
            r.uses_shift_enter_hint() == enhanced_keys_supported,
            r.token_usage_view() is None,
    {
        let r = ChatComposer {
            textarea: TextArea::new(),
            active_popup: ActivePopup::Hidden,
            history: ChatComposerHistory::new(),
            ctrl_c_quit_hint: false,
            esc_backtrack_hint: false,
            use_shift_enter_hint: enhanced_keys_supported,
            dismissed_file_popup_token: None,
            current_file_query: None,
            pending_pastes: Vec::new(),
            token_usage_info: None,
            has_focus: has_input_focus,
            attached_images: Vec::new(),
            placeholder_text,
            last_plain_char_time: None,
            consecutive_plain_char_burst: 0,
            paste_burst_until: None,
            paste_burst_buffer: Vec::new(),
            in_paste_burst_mode: false,
            events: Vec::new(),
            pending_image: None,
        };
        assert(r.model().burst.buffer =~= Seq::<char>::empty());
        assert(r.model().pastes =~= Seq::<(Seq<char>, Seq<char>)>::empty());
        assert(r.model().images =~= Seq::<(Seq<char>, Seq<char>)>::empty());
        assert(r.model().events =~= Seq::<EventView>::empty());
        r
    }

    /// The text being composed.
    pub fn text(&self) -> (r: String)
        ensures
            r@ == self.model().text,
    {
        self.textarea.text()
    }

    /// The cursor, as a byte offset into the text.
    pub fn cursor(&self) -> (r: usize)
        requires
            self.wf(),
        ensures
            r == byte_offset_sat(self.model().text, self.model().cursor),
    {
        self.textarea.cursor()
    }

    /// Whether nothing has been typed.
    pub fn is_empty(&self) -> (b: bool)
        ensures
            b == (self.model().text.len() == 0),
    {
        self.textarea.is_empty()
    }

    /// The pending pastes: placeholder and pasted text.
    pub fn pending_pastes(&self) -> (r: &Vec<(String, String)>)
        ensures
            paste_view(r@) == self.model().pastes,
    {
        &self.pending_pastes
    }

    /// The images attached to the message being composed.
    pub fn attached_images(&self) -> (r: &Vec<AttachedImage>)
        ensures
            image_view(r@) == self.model().images,
    {
        &self.attached_images
    }

    /// The text shown while the composer is empty.
    pub fn placeholder_text(&self) -> (r: &str)
        ensures
            r@ == self.placeholder_text_view(),
    {
        self.placeholder_text.as_str()
    }

    /// Whether the newline hint names Shift+Enter (else Ctrl+J).
    pub fn use_shift_enter_hint(&self) -> (b: bool)
        ensures
            b == self.uses_shift_enter_hint(),
    {
        self.use_shift_enter_hint
    }

    /// Token usage to show, if known.
    pub fn token_usage(&self) -> (r: Option<TokenUsageInfo>)
        ensures
            r == self.token_usage_view(),
    {
        self.token_usage_info
    }

    /// Whether the quit hint replaces the key hints.
    pub fn ctrl_c_quit_hint(&self) -> (b: bool)
        ensures
            b == self.model().ctrl_c_quit_hint,
    {
        self.ctrl_c_quit_hint
    }

    /// Whether the "Esc edit prev" hint shows.
    pub fn esc_backtrack_hint(&self) -> (b: bool)
        ensures
            b == self.model().esc_backtrack_hint,
    {
        self.esc_backtrack_hint
    }

    /// Whether the composer has input focus.
    pub fn has_focus(&self) -> (b: bool)
        ensures
            b == self.model().has_focus,
    {
        self.has_focus
    }

    /// Take the queued requests, oldest first.
    pub fn take_events(&mut self) -> (r: Vec<ComposerEvent>)
        requires
            old(self).wf(),
        ensures
            final(self).wf(),
            events_view(r@) == old(self).model().events,
            final(self).model() == (ComposerView { events: Seq::empty(), ..old(self).model() }),
    {
        let mut r: Vec<ComposerEvent> = Vec::new();
        std::mem::swap(&mut r, &mut self.events);
        assert(events_view(self.events@) =~= Seq::<EventView>::empty());
        r
    }

    /// Record the token usage reported for the session; the tokens present
    /// before the first message are fixed by the first report.
    pub fn set_token_usage(
        &mut self,
        total_token_usage: TokenUsage,
        last_token_usage: TokenUsage,
        model_context_window: Option<u64>,
    )
        requires
            old(self).wf(),
        ensures
            final(self).wf(),
            final(self).model() == (ComposerView { token_usage: final(self).token_usage_view(), ..old(self).model() }),
            final(self).token_usage_view() == Some(
                TokenUsageInfo {
                    total_token_usage,
                    last_token_usage,
                    model_context_window,
                    initial_prompt_tokens: match old(self).token_usage_view() {
                        Some(info) => info.initial_prompt_tokens,
                        None => match last_token_usage.cached_input_tokens {
                            Some(c) => c,
                            None => 0,
                        },
                    },
                },
            ),
    {
        let initial_prompt_tokens = match self.token_usage_info {
            Some(info) => info.initial_prompt_tokens,
            None => match last_token_usage.cached_input_tokens {
                Some(c) => c,
                None => 0,
            },
        };
        self.token_usage_info = Some(
            TokenUsageInfo {
                total_token_usage,
                last_token_usage,
                model_context_window,
                initial_prompt_tokens,
            },
        );
    }

    /// Record the persistent history advertised for the session.
    pub fn set_history_metadata(&mut self, log_id: u64, entry_count: usize)
        requires
            old(self).wf(),
        ensures
            final(self).wf(),
            final(self).model() == (ComposerView {
                history: HistoryView {
                    log_id: Some(log_id),
                    entry_count: entry_count as nat,
                    local: Seq::empty(),
                    fetched: Map::empty(),
                    cursor: None,
                    last_text: None,
                },
                ..old(self).model()
            }),
    {
        self.history.set_metadata(log_id, entry_count);
        assert(self.history.view().local =~= Seq::<Seq<char>>::empty());
    }

    /// Show or hide the quit hint and set the focus.
    pub fn set_ctrl_c_quit_hint(&mut self, show: bool, has_focus: bool)
        requires
            old(self).wf(),
        ensures
            final(self).wf(),
            final(self).model() == (ComposerView {
                ctrl_c_quit_hint: show,
                has_focus,
                ..old(self).model()
            }),
    {
        self.ctrl_c_quit_hint = show;
        self.has_focus = has_focus;
    }

    /// Show or hide the "Esc edit prev" hint.
    pub fn set_esc_backtrack_hint(&mut self, show: bool)
        requires
            old(self).wf(),
        ensures
            final(self).wf(),
            final(self).model() == (ComposerView { esc_backtrack_hint: show, ..old(self).model() }),
    {
        self.esc_backtrack_hint = show;
    }

    /// Move the cursor to a byte offset (clamped, and moved back to a char
    /// boundary).
    pub fn set_cursor(&mut self, pos: usize)
        requires
            old(self).wf(),
        ensures
            final(self).wf(),
            final(self).model() == (ComposerView {
                cursor: chars_within(old(self).model().text, pos as int) as int,
                ..old(self).model()
            }),
    {
        self.textarea.set_cursor(pos);
    }

    /// Replace the whole text as the text area does: the cursor keeps its
    /// byte offset, clamped to the new text; nothing else changes.
    pub fn set_text(&mut self, text: &str)
        requires
            old(self).wf(),
        ensures
            final(self).wf(),
            final(self).model() == (ComposerView {
                text: text@,
                cursor: chars_within(
                    text@,
                    byte_offset_sat(old(self).model().text, old(self).model().cursor) as int,
                ) as int,
                ..old(self).model()
            }),
    {
        self.textarea.set_text(text);
    }

    /// Move the cursor to the end of its line.
    pub fn move_cursor_to_end_of_line(&mut self)
        requires
            old(self).wf(),
        ensures
            final(self).wf(),
            final(self).model() == (ComposerView {
                cursor: crate::textarea::line_end(old(self).model().text, old(self).model().cursor),
                ..old(self).model()
            }),
    {
        self.textarea.move_cursor_to_end_of_line();
    }

    /// Show, update or hide the slash-command popup for the current text.
    fn sync_command_popup(&mut self)
        requires
            old(self).wf(),
        ensures
            final(self).wf(),
            final(self).model() == synced_command(old(self).model()),
    {
        let (a, b) = first_line_bounds(self.textarea.chars());
        let slash = b > a && self.textarea.chars()[a] == '/';
        let first = string_from(&self.textarea.chars()[a..b]);
        proof {
            assert(self.textarea.text_view().subrange(a as int, b as int) == first_line(self.model().text));
        }
        let mut popup = ActivePopup::Hidden;
        std::mem::swap(&mut popup, &mut self.active_popup);
        match popup {
            ActivePopup::Command(mut p) => {
                if slash {
                    p.on_composer_text_change(first);
                    self.active_popup = ActivePopup::Command(p);
                }
            },
            other => {
                if slash {
                    let mut p = CommandPopup::new();
                    p.on_composer_text_change(first);
                    self.active_popup = ActivePopup::Command(p);
                } else {
                    self.active_popup = other;
                }
            },
        }
    }

    /// Show, update or hide the file popup for the `@token` under the
    /// cursor.
    fn sync_file_search_popup(&mut self)
        requires
            old(self).wf(),
        ensures
            final(self).wf(),
            final(self).model() == synced_file(old(self).model()),
    {
        let q = match at_token_chars(self.textarea.chars(), self.textarea.cursor_char()) {
            Some(t) => t,
            None => {
                self.active_popup = ActivePopup::Hidden;
                self.dismissed_file_popup_token = None;
                return;
            },
        };
        let query = string_from(&q);
        let dismissed_same = match &self.dismissed_file_popup_token {
            Some(d) => crate::text::str_eq(d.as_str(), query.as_str()),
            None => false,
        };
        if dismissed_same {
            return;
        }
        if q.len() > 0 {
            let ghost old_events = self.events@;
            self.events.push(ComposerEvent::StartFileSearch(query.clone()));
            assert(events_view(self.events@) =~= events_view(old_events).push(
                EventView::StartFileSearch(q@),
            ));
        }
        let mut popup = ActivePopup::Hidden;
        std::mem::swap(&mut popup, &mut self.active_popup);
        let mut p = match popup {
            ActivePopup::File(p) => p,
            _ => {
                let p = FileSearchPopup::new();
                assert(p.display_query() =~= Seq::<char>::empty());
                assert(p.pending_query() =~= Seq::<char>::empty());
                assert(p.match_paths() =~= Seq::<Seq<char>>::empty());
                p
            },
        };
        if q.len() == 0 {
            p.set_empty_prompt();
            assert(p.display_query() =~= Seq::<char>::empty());
            assert(p.pending_query() =~= Seq::<char>::empty());
            assert(p.match_paths() =~= Seq::<Seq<char>>::empty());
        } else {
            let ghost before = p;
            p.set_query(query.as_str());
            proof {
                if q@ != before.pending_query() && !starts_with(q@, before.display_query()) {
                    assert(p.match_paths() =~= Seq::<Seq<char>>::empty());
                }
            }
        }
        self.active_popup = ActivePopup::File(p);
        self.current_file_query = Some(query.clone());
        self.dismissed_file_popup_token = None;
    }

    /// Both popups brought up to date.
    fn sync_popups(&mut self)
        requires
            old(self).wf(),
        ensures
            final(self).wf(),
            final(self).model() == synced_both(old(self).model()),
    {
        self.sync_command_popup();
        self.sync_file_search_popup();
    }
}

/// The persistent-history response, as the history applies it: cached
/// when it belongs to the current log, and shown when the cursor is on it.
pub open spec fn history_response(
    h: HistoryView,
    log_id: u64,
    offset: usize,
    entry: Option<Seq<char>>,
) -> (HistoryView, Option<Seq<char>>) {
    match entry {
        Some(t) => if h.log_id == Some(log_id) {
            (
                HistoryView {
                    fetched: h.fetched.insert(offset, t),
                    last_text: if h.cursor == Some(offset) {
                        Some(t)
                    } else {
                        h.last_text
                    },
                    ..h
                },
                if h.cursor == Some(offset) {
                    Some(t)
                } else {
                    None
                },
            )
        } else {
            (h, None)
        },
        None => (h, None),
    }
}

/// File-search results for `q` reach the popup only while the token under
/// the cursor still starts with `q`, and only if `q` is the query the popup
/// waits for.
pub open spec fn search_result(v: ComposerView, q: Seq<char>, paths: Seq<Seq<char>>) -> ComposerView {
    match at_token_at(v.text, v.cursor) {
        Some(tok) => if starts_with(tok, q) {
            match v.popup {
                PopupView::File { display, pending, waiting, matches, selected } => if q == pending {
                    ComposerView {
                        popup: PopupView::File {
                            display: q,
                            pending,
                            waiting: false,
                            matches: paths,
                            selected: if paths.len() == 0 {
                                None
                            } else {
                                Some(0usize)
                            },
                        },
                        ..v
                    }
                } else {
                    v
                },
                _ => v,
            }
        } else {
            v
        },
        None => v,
    }
}

fn elapsed_ns(now: u64, t: u64) -> (r: u64)
    ensures
        r == elapsed(now, t),
{
    if now >= t {
        now - t
    } else {
        0
    }
}

impl ChatComposer {
    /// Insert characters at the cursor.
    fn insert_at_cursor(&mut self, t: &[char])
        requires
            old(self).wf(),
        ensures
            final(self).wf(),
            final(self).model() == inserted(old(self).model(), t@),
    {
        self.textarea.insert_chars(t);
    }

    /// Paste text at the cursor; a paste of more than
    /// `LARGE_PASTE_CHAR_THRESHOLD` characters is shown as a placeholder and
    /// its text kept until submission.
    pub fn handle_paste(&mut self, pasted: String) -> (r: bool)
        requires
            old(self).wf(),
        ensures
            final(self).wf(),
            r,
            final(self).model() == after_paste(old(self).model(), pasted@),
    {
        let pc = chars_of(pasted.as_str());
        let char_count = pc.len();
        if char_count > LARGE_PASTE_CHAR_THRESHOLD {
            let placeholder = paste_placeholder(char_count);
            let phc = chars_of(placeholder.as_str());
            self.insert_at_cursor(&phc);
            let ghost old_p = self.pending_pastes@;
            self.pending_pastes.push((placeholder, pasted));
            proof {
                reveal_strlit("[Pasted Content ");
                assert(paste_view(self.pending_pastes@) =~= paste_view(old_p).push((phc@, pc@)));
            }
        } else {
            self.insert_at_cursor(&pc);
        }
        self.last_plain_char_time = None;
        self.consecutive_plain_char_burst = 0;
        self.paste_burst_until = None;
        self.sync_popups();
        true
    }

    /// Attach an image: its placeholder is inserted at the cursor.
    pub fn attach_image(&mut self, path: String, width: u32, height: u32, format_label: &str)
        requires
            old(self).wf(),
        ensures
            final(self).wf(),
            final(self).model() == image_attached(old(self).model(), path@, width, height, format_label@),
    {
        let placeholder = image_placeholder(width, height, format_label);
        let phc = chars_of(placeholder.as_str());
        self.insert_at_cursor(&phc);
        let ghost old_i = self.attached_images@;
        self.attached_images.push(AttachedImage { placeholder, path });
        proof {
            reveal_strlit("[image ");
            assert(image_view(self.attached_images@) =~= image_view(old_i).push((phc@, path@)));
        }
    }

    /// Hand over the paths of the attached images, which are forgotten.
    pub fn take_recent_submission_images(&mut self) -> (r: Vec<String>)
        requires
            old(self).wf(),
        ensures
            final(self).wf(),
            r@.map_values(|s: String| s@) == old(self).model().images.map_values(
                |x: (Seq<char>, Seq<char>)| x.1,
            ),
            final(self).model() == (ComposerView { images: Seq::empty(), ..old(self).model() }),
    {
        let mut images: Vec<AttachedImage> = Vec::new();
        std::mem::swap(&mut images, &mut self.attached_images);
        let mut r: Vec<String> = Vec::new();
        let mut i: usize = 0;
        while i < images.len()
            invariant
                i <= images@.len(),
                r@.map_values(|s: String| s@) == image_view(images@.take(i as int)).map_values(
                    |x: (Seq<char>, Seq<char>)| x.1,
                ),
            decreases images.len() - i,
        {
            let ghost old_r = r@;
            r.push(images[i].path.clone());
            proof {
                assert(images@.take(i + 1) =~= images@.take(i as int).push(images@[i as int]));
                assert(r@.map_values(|s: String| s@) =~= old_r.map_values(|s: String| s@).push(
                    images@[i as int].path@,
                ));
                assert(image_view(images@.take(i + 1)).map_values(|x: (Seq<char>, Seq<char>)| x.1)
                    =~= image_view(images@.take(i as int)).map_values(
                    |x: (Seq<char>, Seq<char>)| x.1,
                ).push(images@[i as int].path@));
            }
            i += 1;
        }
        assert(images@.take(images@.len() as int) =~= images@);
        assert(image_view(self.attached_images@) =~= Seq::<(Seq<char>, Seq<char>)>::empty());
        r
    }

    /// Insert text at the cursor, as typed.
    pub fn insert_str(&mut self, text: &str)
        requires
            old(self).wf(),
        ensures
            final(self).wf(),
            final(self).model() == synced_both(inserted(old(self).model(), text@)),
    {
        let c = chars_of(text);
        self.insert_at_cursor(&c);
        self.sync_popups();
    }

    /// Integrate the answer to a history fetch; when it is shown, it
    /// replaces the text with the cursor at the start.
    pub fn on_history_entry_response(&mut self, log_id: u64, offset: usize, entry: Option<String>) -> (r:
        bool)
        requires
            old(self).wf(),
        ensures
            final(self).wf(),
            ({
                let (h, shown) = history_response(old(self).model().history, log_id, offset, opt_view(entry));
                &&& r == shown is Some
                &&& final(self).model() == match shown {
                    Some(t) => ComposerView { history: h, text: t, cursor: 0, ..old(self).model() },
                    None => ComposerView { history: h, ..old(self).model() },
                }
            }),
    {
        let ghost h0 = self.history.view();
        let res = self.history.on_entry_response(log_id, offset, entry);
        proof {
            let (h, shown) = history_response(h0, log_id, offset, opt_view(entry));
            assert(self.history.view() == h);
        }
        match res {
            Some(text) => {
                let v = chars_of(text.as_str());
                self.textarea.set_chars(v);
                self.textarea.set_cursor_char(0);
                true
            },
            None => false,
        }
    }

    /// Integrate file-search results for `query`.
    pub fn on_file_search_result(&mut self, query: String, matches: Vec<FileMatch>)
        requires
            old(self).wf(),
        ensures
            final(self).wf(),
            final(self).model() == search_result(
                old(self).model(),
                query@,
                matches@.map_values(|m: FileMatch| m.path@),
            ),
    {
        let tok = match at_token_chars(self.textarea.chars(), self.textarea.cursor_char()) {
            Some(t) => t,
            None => {
                return;
            },
        };
        let q = chars_of(query.as_str());
        if !crate::text::starts_with_at(&tok, 0, &q) {
            proof {
                assert(tok@.skip(0) =~= tok@);
            }
            return;
        }
        proof {
            assert(tok@.skip(0) =~= tok@);
        }
        let mut popup = ActivePopup::Hidden;
        std::mem::swap(&mut popup, &mut self.active_popup);
        match popup {
            ActivePopup::File(mut p) => {
                p.set_matches(query.as_str(), matches);
                self.active_popup = ActivePopup::File(p);
            },
            other => {
                self.active_popup = other;
            },
        }
    }

    /// The image path that awaits its dimensions, if any.
    pub fn pending_image_path(&self) -> (r: Option<String>)
        ensures
            opt_view(r) == self.model().pending_image,
    {
        match &self.pending_image {
            Some(p) => Some(p.clone()),
            None => None,
        }
    }

    /// The characters of the first line start with '/'.
    fn first_line_is_slash(&self) -> (b: bool)
        ensures
            b == slash_first_line(self.model().text),
    {
        let (a, b) = first_line_bounds(self.textarea.chars());
        proof {
            assert(self.textarea.text_view().subrange(a as int, b as int) == first_line(self.model().text));
            if b > a {
                assert(first_line(self.model().text)[0] == self.textarea.text_view()[a as int]);
            }
        }
        b > a && self.textarea.chars()[a] == '/'
    }

    /// Hand the buffered burst over as a paste.
    fn flush_burst(&mut self)
        requires
            old(self).wf(),
        ensures
            final(self).wf(),
            final(self).model() == flushed(old(self).model()),
    {
        let mut buf: Vec<char> = Vec::new();
        std::mem::swap(&mut buf, &mut self.paste_burst_buffer);
        self.in_paste_burst_mode = false;
        let pasted = string_from(&buf);
        proof {
            assert(self.paste_burst_buffer@ =~= Seq::<char>::empty());
        }
        self.handle_paste(pasted);
    }

    /// A key applied to the text area, dropping pastes whose placeholder
    /// is gone.
    fn typed_key(&mut self, key: KeyEvent)
        requires
            old(self).wf(),
        ensures
            final(self).wf(),
            final(self).model() == typed(old(self).model(), key),
    {
        self.textarea.input(key);
        let kept = retain_pastes(&self.pending_pastes, self.textarea.chars());
        self.pending_pastes = kept;
        proof {
            crate::placeholders::lemma_retained_pastes_nonempty(
                old(self).model().pastes,
                self.model().text,
            );
        }
    }

    /// Editing keys other than plain characters.
    fn edit_key(&mut self, key: KeyEvent)
        requires
            old(self).wf(),
        ensures
            final(self).wf(),
            final(self).model() == edited(old(self).model(), key),
    {
        if key.code == KeyCode::Backspace {
            let img_phs = image_placeholders(&self.attached_images);
            let paste_phs = paste_placeholders(&self.pending_pastes);
            let removal = find_placeholder_removal(
                self.textarea.chars(),
                self.textarea.cursor_char(),
                &img_phs,
                &paste_phs,
            );
            let empty: Vec<char> = Vec::new();
            match removal {
                Some(Removal::Image { start, end, index }) => {
                    self.textarea.replace_range(start, end, &empty);
                    let ghost old_i = self.attached_images@;
                    self.attached_images.remove(index);
                    proof {
                        assert(image_view(self.attached_images@) =~= image_view(old_i).remove(index as int));
                        assert(placeholders_nonempty(image_view(self.attached_images@))) by {
                            assert forall|k: int| 0 <= k < image_view(self.attached_images@).len() implies (#[trigger] image_view(self.attached_images@)[k]).0.len() > 0 by {
                                if k < index {
                                    assert(image_view(self.attached_images@)[k] == image_view(old_i)[k]);
                                } else {
                                    assert(image_view(self.attached_images@)[k] == image_view(old_i)[k + 1]);
                                }
                            }
                        }
                    }
                    return;
                },
                Some(Removal::Paste { start, end, index }) => {
                    let ph = chars_of(self.pending_pastes[index].0.as_str());
                    self.textarea.replace_range(start, end, &empty);
                    let kept = remove_pastes_with(&self.pending_pastes, &ph);
                    self.pending_pastes = kept;
                    proof {
                        crate::placeholders::lemma_pastes_without_nonempty(old(self).model().pastes, ph@);
                    }
                    return;
                },
                None => {},
            }
        }
        self.textarea.input(key);
        match key.code {
            KeyCode::Char(_) => {
                if key.modifiers.control || key.modifiers.alt {
                    self.consecutive_plain_char_burst = 0;
                    self.last_plain_char_time = None;
                    self.paste_burst_until = None;
                    self.in_paste_burst_mode = false;
                    self.paste_burst_buffer = Vec::new();
                    assert(self.paste_burst_buffer@ =~= Seq::<char>::empty());
                }
            },
            KeyCode::Enter => {},
            _ => {
                self.consecutive_plain_char_burst = 0;
                self.last_plain_char_time = None;
                self.paste_burst_until = None;
                self.in_paste_burst_mode = false;
            },
        }
        let kept = retain_pastes(&self.pending_pastes, self.textarea.chars());
        self.pending_pastes = kept;
        let kept_images = retain_images(&self.attached_images, self.textarea.chars());
        self.attached_images = kept_images;
        proof {
            crate::placeholders::lemma_retained_pastes_nonempty(
                old(self).model().pastes,
                self.model().text,
            );
            crate::placeholders::lemma_retained_images_nonempty(
                old(self).model().images,
                self.model().text,
            );
        }
    }

    /// A plain character: burst bookkeeping, then buffered or typed.
    fn plain_char(&mut self, key: KeyEvent, ch: char, now: u64)
        requires
            old(self).wf(),
            now <= MAX_CLOCK_NS,
        ensures
            final(self).wf(),
            final(self).model() == plain_char(old(self).model(), key, ch, now),
    {
        let count: u16 = match self.last_plain_char_time {
            Some(prev) => if elapsed_ns(now, prev) <= PASTE_BURST_CHAR_INTERVAL_NS {
                if self.consecutive_plain_char_burst < u16::MAX {
                    self.consecutive_plain_char_burst + 1
                } else {
                    u16::MAX
                }
            } else {
                1
            },
            None => 1,
        };
        self.consecutive_plain_char_burst = count;
        self.last_plain_char_time = Some(now);
        if self.in_paste_burst_mode {
            self.paste_burst_buffer.push(ch);
            self.paste_burst_until = Some(now + PASTE_ENTER_SUPPRESS_WINDOW_NS);
            return;
        } else if count >= PASTE_BURST_MIN_CHARS {
            if self.first_line_is_slash() {
                self.paste_burst_until = Some(now + PASTE_ENTER_SUPPRESS_WINDOW_NS);
                self.typed_key(key);
                return;
            }
            self.paste_burst_buffer.push(ch);
            self.in_paste_burst_mode = true;
            self.paste_burst_until = Some(now + PASTE_ENTER_SUPPRESS_WINDOW_NS);
            return;
        }
        self.typed_key(key);
    }

    /// Generic editing keys.
    fn handle_input_basic(&mut self, key: KeyEvent, now: u64) -> (r: InputResult)
        requires
            old(self).wf(),
            now <= MAX_CLOCK_NS,
        ensures
            final(self).wf(),
            (final(self).model(), result_view(r)) == basic_key(old(self).model(), key, now),
    {
        let timed_out = match self.last_plain_char_time {
            Some(t) => elapsed_ns(now, t) > PASTE_BURST_CHAR_INTERVAL_NS,
            None => false,
        };
        if timed_out && (self.paste_burst_buffer.len() > 0 || self.in_paste_burst_mode) {
            self.flush_burst();
        }
        if key.code == KeyCode::Enter && (self.in_paste_burst_mode || self.paste_burst_buffer.len()
            > 0) {
            self.paste_burst_buffer.push('\n');
            self.paste_burst_until = Some(now + PASTE_ENTER_SUPPRESS_WINDOW_NS);
            return InputResult::Nothing;
        }
        match key.code {
            KeyCode::Char(ch) => {
                if !key.modifiers.control && !key.modifiers.alt {
                    self.plain_char(key, ch, now);
                    return InputResult::Nothing;
                } else if self.paste_burst_buffer.len() > 0 || self.in_paste_burst_mode {
                    self.flush_burst();
                }
            },
            _ => {},
        }
        self.edit_key(key);
        InputResult::Nothing
    }
}

impl ChatComposer {
    /// Empty the text and forget the pending pastes.
    fn clear_for_submission(&mut self)
        requires
            old(self).wf(),
        ensures
            final(self).wf(),
            final(self).model() == cleared(old(self).model()),
    {
        self.textarea.set_chars(Vec::new());
        self.pending_pastes = Vec::new();
        assert(paste_view(self.pending_pastes@) =~= Seq::<(Seq<char>, Seq<char>)>::empty());
        assert(chars_within(Seq::<char>::empty(), 0) == 0);
    }

    /// Record a submitted message in the history.
    fn record_submission(&mut self, t: &String)
        requires
            old(self).wf(),
        ensures
            final(self).wf(),
            final(self).model() == (ComposerView {
                history: recorded(old(self).model().history, t@),
                ..old(self).model()
            }),
    {
        if !t.as_str().is_empty() && self.history.has_room() {
            let ghost h0 = self.history.view();
            self.history.record_local_submission(t.as_str());
            assert(self.history.view() == recorded(h0, t@));
        }
    }

    /// Enter without modifiers when no popup takes it.
    fn handle_enter(&mut self, now: u64) -> (r: InputResult)
        requires
            old(self).wf(),
            now <= MAX_CLOCK_NS,
        ensures
            final(self).wf(),
            (final(self).model(), result_view(r)) == enter_key(old(self).model(), now),
    {
        let in_slash = match &self.active_popup {
            ActivePopup::Command(_) => true,
            _ => false,
        } || self.first_line_is_slash();
        if (self.in_paste_burst_mode || self.paste_burst_buffer.len() > 0) && !in_slash {
            self.paste_burst_buffer.push('\n');
            self.paste_burst_until = Some(now + PASTE_ENTER_SUPPRESS_WINDOW_NS);
            return InputResult::Nothing;
        }
        if self.pending_pastes.len() > 0 {
            let text = self.textarea.text();
            let tv = chars_of(text.as_str());
            let t = crate::placeholders::expand_pastes_chars(tv, &self.pending_pastes);
            self.clear_for_submission();
            if t.len() == 0 {
                return InputResult::Nothing;
            }
            let s = string_from(&t);
            self.record_submission(&s);
            return InputResult::Submitted(s);
        }
        let tight = match self.last_plain_char_time {
            Some(t) => elapsed_ns(now, t) <= PASTE_BURST_CHAR_INTERVAL_NS,
            None => false,
        };
        let recent = match self.last_plain_char_time {
            Some(t) => elapsed_ns(now, t) <= PASTE_ENTER_SUPPRESS_WINDOW_NS,
            None => false,
        };
        let by_count = recent && self.consecutive_plain_char_burst >= PASTE_BURST_MIN_CHARS;
        let in_window = match self.paste_burst_until {
            Some(u) => now <= u,
            None => false,
        };
        if tight || by_count || in_window {
            let nl = vec!['\n'];
            assert(nl@ =~= seq!['\n']);
            self.insert_at_cursor(&nl);
            self.paste_burst_until = Some(now + PASTE_ENTER_SUPPRESS_WINDOW_NS);
            return InputResult::Nothing;
        }
        let text = self.textarea.text();
        let tv = chars_of(text.as_str());
        let expanded = crate::placeholders::expand_pastes_chars(tv, &self.pending_pastes);
        self.clear_for_submission();
        let stripped = crate::placeholders::strip_image_placeholders(expanded, &self.attached_images);
        let n = stripped.len();
        let (a, b) = crate::text::trim_bounds(&stripped, 0, n);
        proof {
            assert(stripped@.subrange(0, n as int) =~= stripped@);
        }
        let s = string_from(&stripped[a..b]);
        self.record_submission(&s);
        InputResult::Submitted(s)
    }

    /// Up or Down when they browse the history.
    fn history_key(&mut self, key: KeyEvent, now: u64) -> (r: InputResult)
        requires
            old(self).wf(),
            now <= MAX_CLOCK_NS,
            key.code == KeyCode::Up || key.code == KeyCode::Down,
            navigates(old(self).model()),
        ensures
            final(self).wf(),
            (final(self).model(), result_view(r)) == no_popup_key(old(self).model(), key, now),
    {
        let ghost h0 = self.history.view();
        let (_, effect) = if key.code == KeyCode::Up {
            self.history.navigate_up()
        } else {
            self.history.navigate_down()
        };
        proof {
            let (h, t, req) = if key.code == KeyCode::Up {
                history_up(h0)
            } else {
                history_down(h0)
            };
            assert(self.history.view() == h);
        }
        match effect {
            HistoryEffect::ReplaceText(t) => {
                proof {
                    let (h, tt, req) = if key.code == KeyCode::Up {
                        history_up(h0)
                    } else {
                        history_down(h0)
                    };
                    if t@.len() == 0 {
                        assert(t@ =~= Seq::<char>::empty());
                    }
                    assert(tt == Some(t@));
                }
                let v = chars_of(t.as_str());
                self.textarea.set_chars(v);
                self.textarea.set_cursor_char(0);
                InputResult::Nothing
            },
            HistoryEffect::RequestEntry { log_id, offset } => {
                let ghost old_e = self.events@;
                self.events.push(ComposerEvent::GetHistoryEntry { log_id, offset });
                assert(events_view(self.events@) =~= events_view(old_e).push(
                    EventView::GetHistoryEntry(log_id, offset),
                ));
                self.handle_input_basic(key, now)
            },
            HistoryEffect::Nothing => self.handle_input_basic(key, now),
        }
    }

    /// A key when no popup shows.
    fn handle_key_without_popup(&mut self, key: KeyEvent, now: u64) -> (r: InputResult)
        requires
            old(self).wf(),
            now <= MAX_CLOCK_NS,
        ensures
            final(self).wf(),
            (final(self).model(), result_view(r)) == no_popup_key(old(self).model(), key, now),
    {
        if key.code == KeyCode::Up || key.code == KeyCode::Down {
            let text = self.textarea.text();
            let nav = self.history.should_handle_navigation(text.as_str(), self.textarea.cursor());
            if nav {
                return self.history_key(key, now);
            }
            return self.handle_input_basic(key, now);
        }
        if key.code == KeyCode::Enter && !key.modifiers.shift && !key.modifiers.control
            && !key.modifiers.alt {
            return self.handle_enter(now);
        }
        self.handle_input_basic(key, now)
    }
}

impl ChatComposer {
    /// Tab on a selected command: the text becomes "/<command> " unless its
    /// first line already starts with that command; the cursor goes to the
    /// end.
    fn complete_slash_command(&mut self, cmd: SlashCommand)
        requires
            old(self).wf(),
        ensures
            final(self).wf(),
            ({
                let v = old(self).model();
                let word = "/"@ + command_name(cmd);
                let t = if starts_with(trim_start(first_line(v.text)), word) {
                    v.text
                } else {
                    word + " "@
                };
                final(self).model() == ComposerView { text: t, cursor: t.len() as int, ..v }
            }),
    {
        let mut word: Vec<char> = vec!['/'];
        let name = chars_of(cmd.command());
        crate::text::push_chars(&mut word, &name);
        proof {
            reveal_strlit("/");
            assert(word@ =~= "/"@ + command_name(cmd));
        }
        let (a, b) = first_line_bounds(self.textarea.chars());
        let st = crate::text::skip_ws_forward(self.textarea.chars(), a, b);
        let starts = crate::text::starts_with_at(&self.textarea.chars()[0..b], st, &word);
        proof {
            let fl = self.textarea.text_view().subrange(a as int, b as int);
            assert(fl == first_line(self.model().text));
            assert(trim_start(fl) =~= self.textarea.text_view().subrange(st as int, b as int));
            assert(self.textarea.text_view().subrange(0, b as int).skip(st as int)
                =~= self.textarea.text_view().subrange(st as int, b as int));
        }
        if !starts {
            word.push(' ');
            proof {
                reveal_strlit(" ");
                assert(word@ =~= "/"@ + command_name(cmd) + " "@);
            }
            self.textarea.set_chars(word);
        }
        let len = self.textarea.chars().len();
        self.textarea.set_cursor_char(len);
    
    }

    /// A key while the slash-command popup shows.
    fn handle_key_with_slash_popup(&mut self, key: KeyEvent, now: u64) -> (r: InputResult)
        requires
            old(self).wf(),
            now <= MAX_CLOCK_NS,
        ensures
            final(self).wf(),
            (final(self).model(), result_view(r)) == slash_popup_key(old(self).model(), key, now),
    {
        let mut popup = ActivePopup::Hidden;
        std::mem::swap(&mut popup, &mut self.active_popup);
        let mut p = match popup {
            ActivePopup::Command(p) => p,
            other => {
                self.active_popup = other;
                return InputResult::Nothing;
            },
        };
        if key.code == KeyCode::Up {
            p.move_up();
            self.active_popup = ActivePopup::Command(p);
            return InputResult::Nothing;
        }
        if key.code == KeyCode::Down {
            p.move_down();
            self.active_popup = ActivePopup::Command(p);
            return InputResult::Nothing;
        }
        if key.code == KeyCode::Tab {
            let sel = p.selected_command();
            self.active_popup = ActivePopup::Command(p);
            match sel {
                Some(cmd) => {
                    self.complete_slash_command(cmd);
                },
                None => {},
            }
            return InputResult::Nothing;
        }
        if key.code == KeyCode::Enter && !key.modifiers.shift && !key.modifiers.control
            && !key.modifiers.alt {
            match p.selected_command() {
                Some(cmd) => {
                    self.textarea.set_chars(Vec::new());
                    self.textarea.set_cursor_char(0);
                    return InputResult::Command(cmd);
                },
                None => {
                    self.active_popup = ActivePopup::Command(p);
                    return self.handle_key_without_popup(key, now);
                },
            }
        }
        self.active_popup = ActivePopup::Command(p);
        self.handle_input_basic(key, now)
    }

    /// Replace the token under the cursor with `path` and a space.
    fn insert_selected_path(&mut self, path: &[char])
        requires
            old(self).wf(),
        ensures
            final(self).wf(),
            final(self).model() == path_inserted(old(self).model(), path@),
    {
        let n = self.textarea.chars().len();
        let p = self.textarea.cursor_char();
        let a = crate::text::skip_non_ws_backward(self.textarea.chars(), 0, p);
        let b = crate::text::skip_non_ws_forward(self.textarea.chars(), p, n);
        proof {
            let s = self.textarea.text_view();
            assert(s.subrange(0, p as int) =~= s.take(p as int));
            assert(s.subrange(p as int, n as int) =~= s.skip(p as int));
        }
        let mut rep: Vec<char> = Vec::new();
        crate::text::push_chars(&mut rep, path);
        rep.push(' ');
        let plen = rep.len();
        self.textarea.replace_range(a, b, &rep);
        let total = self.textarea.chars().len();
        assert(total == a + plen + (n - b));
        proof {
            let s = old(self).model().text;
            assert(crate::textarea::splice(s, a as int, b as int, rep@) =~= s.take(a as int) + path@
                + seq![' '] + s.skip(b as int));
        }
        self.textarea.set_cursor_char(a + plen);
    }

    /// A key while the file popup shows.
    fn handle_key_with_file_popup(&mut self, key: KeyEvent, now: u64) -> (r: InputResult)
        requires
            old(self).wf(),
            now <= MAX_CLOCK_NS,
        ensures
            final(self).wf(),
            (final(self).model(), result_view(r)) == file_popup_key(old(self).model(), key, now),
    {
        let mut popup = ActivePopup::Hidden;
        std::mem::swap(&mut popup, &mut self.active_popup);
        let mut p = match popup {
            ActivePopup::File(p) => p,
            other => {
                self.active_popup = other;
                return InputResult::Nothing;
            },
        };
        if key.code == KeyCode::Up {
            p.move_up();
            self.active_popup = ActivePopup::File(p);
            return InputResult::Nothing;
        }
        if key.code == KeyCode::Down {
            p.move_down();
            self.active_popup = ActivePopup::File(p);
            return InputResult::Nothing;
        }
        if key.code == KeyCode::Esc {
            match at_token_chars(self.textarea.chars(), self.textarea.cursor_char()) {
                Some(t) => {
                    self.dismissed_file_popup_token = Some(string_from(&t));
                },
                None => {},
            }
            return InputResult::Nothing;
        }
        if key.code == KeyCode::Tab || (key.code == KeyCode::Enter && !key.modifiers.shift
            && !key.modifiers.control && !key.modifiers.alt) {
            let sel: Option<String> = match p.selected_match() {
                Some(s) => Some(String::from_str(s)),
                None => None,
            };
            match sel {
                None => {
                    return InputResult::Nothing;
                },
                Some(path) => {
                    if is_image_path(path.as_str()) {
                        self.pending_image = Some(path);
                        self.active_popup = ActivePopup::File(p);
                    } else {
                        let pc = chars_of(path.as_str());
                        self.insert_selected_path(&pc);
                    }
                    return InputResult::Nothing;
                },
            }
        }
        self.active_popup = ActivePopup::File(p);
        self.handle_input_basic(key, now)
    }

    /// The popups after a key.
    fn sync_after_key(&mut self)
        requires
            old(self).wf(),
        ensures
            final(self).wf(),
            final(self).model() == after_key(old(self).model()),
    {
        self.sync_command_popup();
        let is_command = match &self.active_popup {
            ActivePopup::Command(_) => true,
            _ => false,
        };
        if is_command {
            self.dismissed_file_popup_token = None;
        } else {
            self.sync_file_search_popup();
        }
    }

    /// Handle a key press at time `now` (ns on a monotonic clock). Returns
    /// what the key produced and whether the composer needs redrawing
    /// (always). When the key accepts an image path from the file popup,
    /// the image's dimensions must then be given to
    /// `complete_image_selection`.
    pub fn handle_key_event(&mut self, key: KeyEvent, now: u64) -> (r: (InputResult, bool))
        requires
            old(self).wf(),
            now <= MAX_CLOCK_NS,
            old(self).model().pending_image is None,
        ensures
            final(self).wf(),
            r.1,
            (final(self).model(), result_view(r.0)) == key_step(old(self).model(), key, now),
    {
        let kind: u8 = match &self.active_popup {
            ActivePopup::Command(_) => 0,
            ActivePopup::File(_) => 1,
            ActivePopup::Hidden => 2,
        };
        let result = if kind == 0 {
            self.handle_key_with_slash_popup(key, now)
        } else if kind == 1 {
            self.handle_key_with_file_popup(key, now)
        } else {
            self.handle_key_without_popup(key, now)
        };
        if self.pending_image.is_none() {
            self.sync_after_key();
        }
        (result, true)
    }

    /// Finish accepting an image path from the file popup once its
    /// dimensions are known (`None` when they could not be read, in which
    /// case the path is inserted as text).
    pub fn complete_image_selection(&mut self, dims: Option<(u32, u32)>)
        requires
            old(self).wf(),
        ensures
            final(self).wf(),
            old(self).model().pending_image is None ==> final(self).model() == old(self).model(),
            old(self).model().pending_image matches Some(path) ==> final(self).model()
                == image_selected(old(self).model(), path, dims, path_extension(path)),
    {
        let path = match &self.pending_image {
            Some(p) => p.clone(),
            None => {
                return;
            },
        };
        let pc = chars_of(path.as_str());
        match dims {
            Some((w, h)) => {
                let n = self.textarea.chars().len();
                let p = self.textarea.cursor_char();
                let a = crate::text::skip_non_ws_backward(self.textarea.chars(), 0, p);
                let b = crate::text::skip_non_ws_forward(self.textarea.chars(), p, n);
                proof {
                    let s = self.textarea.text_view();
                    assert(s.subrange(0, p as int) =~= s.take(p as int));
                    assert(s.subrange(p as int, n as int) =~= s.skip(p as int));
                }
                let empty: Vec<char> = Vec::new();
                self.textarea.replace_range(a, b, &empty);
                self.textarea.set_cursor_char(a);
                let ext = extension_of(path.as_str());
                let label: &str = match &ext {
                    Some(e) => {
                        let lower = crate::text::to_ascii_lower(&chars_of(e.as_str()));
                        let png = chars_of("png");
                        let jpg = chars_of("jpg");
                        let jpeg = chars_of("jpeg");
                        if crate::text::chars_eq(&lower, &png) {
                            "PNG"
                        } else if crate::text::chars_eq(&lower, &jpg) || crate::text::chars_eq(&lower, &jpeg) {
                            "JPEG"
                        } else {
                            "IMG"
                        }
                    },
                    None => "IMG",
                };
                proof {
                    assert(label@ == image_format_label(opt_view(ext)));
                }
                self.attach_image(path, w, h, label);
                let sp = vec![' '];
                assert(sp@ =~= seq![' ']);
                self.insert_at_cursor(&sp);
            },
            None => {
                self.insert_selected_path(&pc);
            },
        }
        self.active_popup = ActivePopup::Hidden;
        self.pending_image = None;
        self.sync_after_key();
    }
}

/// A large paste into an empty composer comes back whole when the message
/// is submitted: the placeholder shown in its place is expanded.
pub proof fn law_large_paste_restored_on_submit(v: ComposerView, p: Seq<char>, now: u64)
    requires
        v.text.len() == 0,
        v.cursor == 0,
        v.pastes.len() == 0,
        !capturing(v),
        p.len() > LARGE_PASTE_CHAR_THRESHOLD,
    ensures
        enter_key(after_paste(v, p), now).1 == ResultView::Submitted(p),
{
    let ph = paste_placeholder_text(p.len());
    reveal_strlit("[Pasted Content ");
    assert(ph.len() > 0);
    let v1 = after_paste(v, p);
    assert(insert_at(v.text, 0, ph) =~= ph);
    assert(v1.text == ph);
    assert(v1.pastes =~= seq![(ph, p)]);
    assert(ph.take(ph.len() as int) =~= ph);
    assert(ph.skip(ph.len() as int) =~= Seq::<char>::empty());
    assert(crate::text::starts_with(ph, ph));
    assert(crate::text::replace_all(Seq::<char>::empty(), ph, p) == Seq::<char>::empty());
    assert(crate::text::replace_all(ph, ph, p) == p + crate::text::replace_all(
        ph.skip(ph.len() as int),
        ph,
        p,
    ));
    assert(p + Seq::<char>::empty() =~= p);
    assert(crate::text::replace_all(ph, ph, p) == p);
    let ps = seq![(ph, p)];
    assert(ps[0] == (ph, p));
    assert(ps.drop_first() =~= Seq::<(Seq<char>, Seq<char>)>::empty());
    assert(expand_pastes(ph, ps.drop_first()) == ph);
    assert(expand_pastes(crate::text::replace_all(ph, ph, p), ps.drop_first()) == p);
    assert(expand_pastes(ph, ps) == p);
}

/// A key that goes to the text area keeps the placeholders honest: the
/// pending pastes are exactly those whose placeholder is still in the text,
/// in their order, and for each placeholder the attached images are as many
/// of those sharing it as it occurs in the text (none is added). This holds
/// for every editing key except a Backspace that removes a placeholder
/// whole, and for every plain character typed into the text.
pub proof fn law_edits_keep_placeholders_in_text(v: ComposerView, key: KeyEvent, l: Seq<char>)
    ensures
        !(key.code == KeyCode::Backspace && removal_of(v) is Some) ==> ({
            let w = edited(v, key);
            &&& w.pastes == v.pastes.filter(|x: (Seq<char>, Seq<char>)| contains_seq(w.text, x.0))
            &&& forall|i: int| 0 <= i < w.pastes.len() ==> contains_seq(w.text, #[trigger] w.pastes[i].0)
            &&& count_ph(w.images, l) == if count_ph(v.images, l) < count_matches(w.text, l) {
                count_ph(v.images, l)
            } else {
                count_matches(w.text, l)
            }
        }),
        ({
            let w = typed(v, key);
            &&& w.pastes == v.pastes.filter(|x: (Seq<char>, Seq<char>)| contains_seq(w.text, x.0))
            &&& forall|i: int| 0 <= i < w.pastes.len() ==> contains_seq(w.text, #[trigger] w.pastes[i].0)
            &&& w.images == v.images
        }),
{
    let (t, c) = key_edit(v.text, v.cursor, key);
    lemma_retained_pastes_filter(v.pastes, t);
    lemma_retained_images_count(v.images, t, l);
}

/// The pending pastes' placeholders all occur in the text.
pub open spec fn pastes_in_text(v: ComposerView) -> bool {
    forall|i: int| 0 <= i < v.pastes.len() ==> contains_seq(v.text, #[trigger] v.pastes[i].0)
}

/// Outside a paste burst, a basic key keeps every pending paste's
/// placeholder in the text, unless it is a Backspace that removes a
/// placeholder whole. (A burst flushed while the cursor sits inside a
/// placeholder can split it, so the burst is left out.)
pub proof fn law_basic_key_keeps_pastes_in_text(v: ComposerView, key: KeyEvent, now: u64)
    requires
        pastes_in_text(v),
        !capturing(v),
        !(key.code == KeyCode::Backspace && removal_of(v) is Some),
    ensures
        pastes_in_text(basic_key(v, key, now).0),
{
    let (t, c) = key_edit(v.text, v.cursor, key);
    lemma_retained_pastes_filter(v.pastes, t);
    let w = basic_key(v, key, now).0;
    match key.code {
        KeyCode::Char(ch) => {
            if !key.modifiers.control && !key.modifiers.alt {
                let p = plain_char(v, key, ch, now);
                assert(w == p);
            }
        },
        _ => {},
    }
}

/// A submitted message is recalled by Up: after the submission the
/// composer is empty, so Up browses the history and shows the message.
pub proof fn law_submission_recalled_by_up(v: ComposerView, now: u64, up: KeyEvent)
    requires
        view_wf(v),
        v.history.total() < usize::MAX,
        up.code == KeyCode::Up,
        enter_key(v, now).1 matches ResultView::Submitted(t) && t.len() > 0,
    ensures
        ({
            let v2 = enter_key(v, now).0;
            let t = enter_key(v, now).1->Submitted_0;
            &&& v2.text.len() == 0
            &&& navigates(v2)
            &&& no_popup_key(v2, up, now).0.text == t
        }),
{
    let v2 = enter_key(v, now).0;
    let t = enter_key(v, now).1->Submitted_0;
    let h = v2.history;
    assert(h == recorded(v.history, t));
    assert(h.local.len() == v.history.local.len() + 1);
    let idx = h.total() - 1;
    assert(idx - h.entry_count == v.history.local.len());
    assert(h.local[idx - h.entry_count] == t);
    assert(h.known_text(idx) == Some(t));
}

impl ChatComposer {
    /// The line of key hints under the composer; `tokens_used` and
    /// `percent_left` are the session's blended token total and the share of
    /// the context window left, shown when usage is known.
    pub fn footer_hint_line(&self, tokens_used: u64, percent_left: u8) -> (r: crate::diff_render::StyledLine)
        ensures
            crate::diff_render::line_view(r) == (crate::diff_render::LineView {
                spans: crate::composer_footer::footer_spans(
                    self.model().ctrl_c_quit_hint,
                    self.uses_shift_enter_hint(),
                    self.model().esc_backtrack_hint,
                    self.token_usage_view(),
                    tokens_used,
                    percent_left,
                ),
                fg: None,
            }),
    {
        crate::composer_footer::footer_hint_line(
            self.ctrl_c_quit_hint,
            self.use_shift_enter_hint,
            self.esc_backtrack_hint,
            self.token_usage_info,
            tokens_used,
            percent_left,
        )
    }
}

} // verus!
