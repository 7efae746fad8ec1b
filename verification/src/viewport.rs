//! Where the inline viewport stands on the screen: how it follows the
//! cursor after a resize, how it is fitted to the screen before each frame,
//! how it is saved while the alternate screen is shown and restored after,
//! and what a resumed session must do to it.
use vstd::prelude::*;
use crate::insert_history::{rect_bottom, Rect};
use crate::tui::ResumeAction;

verus! {

/// `v` clamped to `lo..=hi`.
pub open spec fn clamp(v: int, lo: int, hi: int) -> int {
    if v < lo {
        lo
    } else if v > hi {
        hi
    } else {
        v
    }
}

/// A rectangle moved by `dx` columns and `dy` rows, its size kept, its
/// position clamped so that it stays within the coordinate range.
pub open spec fn offset_rect(r: Rect, dx: int, dy: int) -> Rect {
    Rect {
        x: clamp(r.x + dx, 0, u16::MAX - r.width) as u16,
        y: clamp(r.y + dy, 0, u16::MAX - r.height) as u16,
        ..r
    }
}

/// Move `r` by `dx` columns and `dy` rows, keeping its size.
pub fn offset(r: Rect, dx: i32, dy: i32) -> (o: Rect)
    ensures
        o == offset_rect(r, dx as int, dy as int),
{
    let max_x: i64 = (u16::MAX - r.width) as i64;
    let max_y: i64 = (u16::MAX - r.height) as i64;
    let x0: i64 = r.x as i64 + dx as i64;
    let y0: i64 = r.y as i64 + dy as i64;
    let x: i64 = if x0 < 0 {
        0
    } else if x0 > max_x {
        max_x
    } else {
        x0
    };
    let y: i64 = if y0 < 0 {
        0
    } else if y0 > max_y {
        max_y
    } else {
        y0
    };
    Rect { x: x as u16, y: y as u16, width: r.width, height: r.height }
}

/// The whole screen of the given size.
pub open spec fn full_screen(width: u16, height: u16) -> Rect {
    Rect { x: 0, y: 0, width, height }
}

/// What a resumed session does to the viewport, once the terminal has been
/// asked where the cursor is.
#[derive(Debug, Clone, Copy, PartialEq, Eq, Structural)]
pub enum PreparedResumeAction {
    /// Move the inline viewport to this area.
    RealignViewport(Rect),
    /// Show the alternate screen again.
    RestoreAltScreen,
}

/// The terminal could not say where the cursor is.
#[derive(Debug, Clone, Copy, PartialEq, Eq, Structural)]
pub enum CursorUnavailable {
    CursorPosition,
}

/// How the viewport is fitted to the screen before a frame.
#[derive(Debug, Clone, Copy, PartialEq, Eq)]
pub struct FitPlan {
    /// Scroll the rows above `top` up by `rows` first.
    pub scroll_up: Option<(u16, u16)>,
    /// The viewport moved or changed size: clear it.
    pub clear: bool,
}

/// The viewport of the inline terminal user interface, and the inline
/// viewport saved while the alternate screen is shown.
#[derive(Debug, Clone, Copy, PartialEq, Eq, Structural)]
pub struct Viewport {
    pub area: Rect,
    pub alt_saved: Option<Rect>,
    pub alt_screen_active: bool,
}

/// The viewport fitted to a screen of `width` by `screen_height` for a
/// frame of `height` rows: as wide as the screen, no taller than it, and
/// moved up when it would reach below the last row.
pub open spec fn fitted_area(area: Rect, height: u16, width: u16, screen_height: u16) -> Rect {
    let h = if height < screen_height { height } else { screen_height };
    let a = Rect { height: h, width, ..area };
    if rect_bottom(a) > screen_height {
        Rect { y: (screen_height - h) as u16, ..a }
    } else {
        a
    }
}

/// The viewport after the alternate screen is shown on a screen of the
/// given size, if known.
pub open spec fn enter_alt(v: Viewport, screen_size: Option<(u16, u16)>) -> Viewport {
    match screen_size {
        Some((w, h)) => Viewport { area: full_screen(w, h), alt_saved: Some(v.area), alt_screen_active: true },
        None => Viewport { alt_screen_active: true, ..v },
    }
}

/// The viewport after the alternate screen is left.
pub open spec fn leave_alt(v: Viewport) -> Viewport {
    Viewport {
        area: match v.alt_saved {
            Some(saved) => saved,
            None => v.area,
        },
        alt_saved: None,
        alt_screen_active: false,
    }
}

impl Viewport {
    /// An inline viewport at `area`, the alternate screen not shown.
    pub fn new(area: Rect) -> (r: Self)
        ensures
            r == (Viewport { area, alt_saved: None, alt_screen_active: false }),
    {
        Viewport { area, alt_saved: None, alt_screen_active: false }
    }

    /// Replace the viewport's area.
    pub fn set_viewport_area(&mut self, area: Rect)
        ensures
            *final(self) == (Viewport { area, ..*old(self) }),
    {
        self.area = area;
    }

    /// Where the viewport goes after the screen changed size: it follows
    /// the cursor by as many rows as the cursor moved. Nothing moves when
    /// the screen kept its size (the cursor is then not asked for) or the
    /// cursor stayed on its row.
    pub fn pending_viewport_area(
        &self,
        screen_size: (u16, u16),
        last_known_screen_size: (u16, u16),
        cursor_row: Option<u16>,
        last_known_cursor_row: u16,
    ) -> (r: Option<Rect>)
        ensures
            r == (if screen_size != last_known_screen_size {
                match cursor_row {
                    Some(y) => if y != last_known_cursor_row {
                        Some(offset_rect(self.area, 0, y - last_known_cursor_row))
                    } else {
                        None
                    },
                    None => None,
                }
            } else {
                None
            }),
    {
        if screen_size.0 != last_known_screen_size.0 || screen_size.1 != last_known_screen_size.1 {
            match cursor_row {
                Some(y) => {
                    if y != last_known_cursor_row {
                        let delta: i32 = y as i32 - last_known_cursor_row as i32;
                        Some(offset(self.area, 0, delta))
                    } else {
                        None
                    }
                },
                None => None,
            }
        } else {
            None
        }
    }

    /// Fit the viewport to a screen of `width` by `screen_height` for a
    /// frame of `height` rows. When it would reach below the last row, the
    /// rows above it scroll up by the overflow and it moves up; when it
    /// changed, it is cleared.
    pub fn fit_to_screen(&mut self, height: u16, width: u16, screen_height: u16) -> (r: FitPlan)
        ensures
            final(self).area == fitted_area(old(self).area, height, width, screen_height),
            final(self).alt_saved == old(self).alt_saved,
            final(self).alt_screen_active == old(self).alt_screen_active,
            r.clear == (final(self).area != old(self).area),
            ({
                let h = if height < screen_height { height } else { screen_height };
                let a = Rect { height: h, width, ..old(self).area };
                r.scroll_up == (if rect_bottom(a) > screen_height {
                    Some((old(self).area.y, (rect_bottom(a) - screen_height) as u16))
                } else {
                    None
                })
            }),
    {
        let h: u16 = if height < screen_height { height } else { screen_height };
        let mut area = Rect { x: self.area.x, y: self.area.y, width, height: h };
        let bottom: u16 = if area.y <= u16::MAX - area.height {
            area.y + area.height
        } else {
            u16::MAX
        };
        let mut scroll_up: Option<(u16, u16)> = None;
        if bottom > screen_height {
            scroll_up = Some((area.y, bottom - screen_height));
            area.y = screen_height - h;
        }
        let clear = area != self.area;
        self.area = area;
        FitPlan { scroll_up, clear }
    }

    /// Show the alternate screen: the inline viewport is saved and the
    /// viewport covers the whole screen, when its size is known.
    pub fn enter_alt_screen(&mut self, screen_size: Option<(u16, u16)>)
        ensures
            *final(self) == enter_alt(*old(self), screen_size),
    {
        match screen_size {
            Some((w, h)) => {
                self.alt_saved = Some(self.area);
                self.area = Rect { x: 0, y: 0, width: w, height: h };
            },
            None => {},
        }
        self.alt_screen_active = true;
    }

    /// Leave the alternate screen: the saved inline viewport, if any, is
    /// restored.
    pub fn leave_alt_screen(&mut self)
        ensures
            *final(self) == leave_alt(*old(self)),
    {
        match self.alt_saved {
            Some(saved) => {
                self.area = saved;
            },
            None => {},
        }
        self.alt_saved = None;
        self.alt_screen_active = false;
    }

    /// What a resumed session must do, given the cursor's row: realign the
    /// inline viewport to the cursor's row (which needs the cursor), or show
    /// the alternate screen again, the saved inline viewport moved to the
    /// cursor's row when the cursor is known.
    pub fn prepare_resume_action(&mut self, action: ResumeAction, cursor_row: Option<u16>) -> (r: Result<
        Option<PreparedResumeAction>,
        CursorUnavailable,
    >)
        ensures
            match action {
                ResumeAction::RealignInline => match cursor_row {
                    Some(y) => r == Ok::<Option<PreparedResumeAction>, CursorUnavailable>(
                        Some(PreparedResumeAction::RealignViewport(Rect { x: 0, y, width: 0, height: 0 })),
                    ),
                    None => r == Err::<Option<PreparedResumeAction>, CursorUnavailable>(
                        CursorUnavailable::CursorPosition,
                    ),
                },
                ResumeAction::RestoreAlt => r == Ok::<Option<PreparedResumeAction>, CursorUnavailable>(
                    Some(PreparedResumeAction::RestoreAltScreen),
                ),
                ResumeAction::Nothing => r == Ok::<Option<PreparedResumeAction>, CursorUnavailable>(None),
            },
            final(self).area == old(self).area,
            final(self).alt_screen_active == old(self).alt_screen_active,
            final(self).alt_saved == (match (action, cursor_row, old(self).alt_saved) {
                (ResumeAction::RestoreAlt, Some(y), Some(saved)) => Some(Rect { y, ..saved }),
                _ => old(self).alt_saved,
            }),
    {
        match action {
            ResumeAction::RealignInline => match cursor_row {
                Some(y) => Ok(Some(PreparedResumeAction::RealignViewport(Rect { x: 0, y, width: 0, height: 0 }))),
                None => Err(CursorUnavailable::CursorPosition),
            },
            ResumeAction::RestoreAlt => {
                match (cursor_row, self.alt_saved) {
                    (Some(y), Some(saved)) => {
                        self.alt_saved = Some(Rect { x: saved.x, y, width: saved.width, height: saved.height });
                    },
                    _ => {},
                }
                Ok(Some(PreparedResumeAction::RestoreAltScreen))
            },
            ResumeAction::Nothing => Ok(None),
        }
    }

    /// Carry out a prepared resume action: move the viewport, or (after the
    /// alternate screen is shown again) cover the whole screen when its size
    /// is known. Whether the screen must be cleared.
    pub fn apply_prepared_resume_action(&mut self, prepared: PreparedResumeAction, screen_size: Option<(u16, u16)>) -> (r:
        bool)
        ensures
            final(self).alt_saved == old(self).alt_saved,
            final(self).alt_screen_active == old(self).alt_screen_active,
            match prepared {
                PreparedResumeAction::RealignViewport(area) => final(self).area == area && !r,
                PreparedResumeAction::RestoreAltScreen => match screen_size {
                    Some((w, h)) => final(self).area == full_screen(w, h) && r,
                    None => final(self).area == old(self).area && !r,
                },
            },
    {
        match prepared {
            PreparedResumeAction::RealignViewport(area) => {
                self.area = area;
                false
            },
            PreparedResumeAction::RestoreAltScreen => match screen_size {
                Some((w, h)) => {
                    self.area = Rect { x: 0, y: 0, width: w, height: h };
                    true
                },
                None => false,
            },
        }
    }
}

/// Showing the alternate screen and leaving it again puts the inline
/// viewport back where it was.
pub proof fn law_alt_screen_round_trip(v: Viewport, screen_size: Option<(u16, u16)>)
    requires
        v.alt_saved is None,
    ensures
        leave_alt(enter_alt(v, screen_size)) == (Viewport { alt_screen_active: false, ..v }),
{
}

/// A fitted viewport lies on the screen: it is as wide as the screen, no
/// taller than the frame or the screen, and ends at or above the last row.
pub proof fn law_fitted_area_on_screen(area: Rect, height: u16, width: u16, screen_height: u16)
    ensures
        fitted_area(area, height, width, screen_height).width == width,
        fitted_area(area, height, width, screen_height).height <= height,
        fitted_area(area, height, width, screen_height).height <= screen_height,
        rect_bottom(fitted_area(area, height, width, screen_height)) <= screen_height,
{
}

/// Fitting is settled: a viewport fitted once is left as it is by fitting
/// it again to the same screen.
pub proof fn law_fitting_is_idempotent(area: Rect, height: u16, width: u16, screen_height: u16)
    ensures
        fitted_area(fitted_area(area, height, width, screen_height), height, width, screen_height)
            == fitted_area(area, height, width, screen_height),
{
}

} // verus!
