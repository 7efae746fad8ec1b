//! Scrolling the conversation history: a scroll position that sticks to
//! the bottom until the user scrolls up, and the window of history cells
//! (each some rows tall) that a viewport shows at a position.
use vstd::prelude::*;

verus! {

/// The position that means "follow the bottom".
pub const STICK_TO_BOTTOM: usize = usize::MAX;

/// The scroll state, with what the last render measured.
pub struct HistoryScroll {
    scroll_position: usize,
    num_rendered_lines: usize,
    last_viewport_height: usize,
}

pub struct ScrollView {
    pub position: usize,
    pub rendered_lines: usize,
    pub viewport_height: usize,
}

pub open spec fn sat_sub(a: int, b: int) -> int {
    if a >= b {
        a - b
    } else {
        0
    }
}

/// Scrolling up `n` rows: from the bottom, first fix the position at the
/// last full page.
pub open spec fn scrolled_up(v: ScrollView, n: nat) -> usize {
    let base = if v.position == STICK_TO_BOTTOM {
        sat_sub(v.rendered_lines as int, v.viewport_height as int)
    } else {
        v.position as int
    };
    sat_sub(base, n as int) as usize
}

/// Scrolling down `n` rows: nothing at the bottom; reaching the last full
/// page sticks to the bottom again.
pub open spec fn scrolled_down(v: ScrollView, n: nat) -> usize {
    if v.position == STICK_TO_BOTTOM {
        STICK_TO_BOTTOM
    } else {
        let h = if v.viewport_height >= 1 {
            v.viewport_height as int
        } else {
            1
        };
        let max_scroll = sat_sub(v.rendered_lines as int, h);
        let new_pos = if v.position + n <= usize::MAX {
            v.position + n
        } else {
            usize::MAX as int
        };
        if new_pos >= max_scroll {
            STICK_TO_BOTTOM
        } else {
            new_pos as usize
        }
    }
}

/// The position a render uses for `num_lines` rows in a viewport of
/// `height`: the bottom page when sticking to the bottom, else the position
/// kept within the last full page.
pub open spec fn render_position(position: usize, num_lines: nat, height: nat) -> nat {
    let max_scroll = sat_sub(num_lines as int, height as int) as nat;
    if position == STICK_TO_BOTTOM {
        max_scroll
    } else if position < max_scroll {
        position as nat
    } else {
        max_scroll
    }
}

impl HistoryScroll {
    pub closed spec fn view(&self) -> ScrollView {
        ScrollView {
            position: self.scroll_position,
            rendered_lines: self.num_rendered_lines,
            viewport_height: self.last_viewport_height,
        }
    }

    /// Following the bottom, nothing rendered yet.
    pub fn new() -> (r: Self)
        ensures
            r.view() == (ScrollView { position: STICK_TO_BOTTOM, rendered_lines: 0, viewport_height: 0 }),
    {
        HistoryScroll { scroll_position: STICK_TO_BOTTOM, num_rendered_lines: 0, last_viewport_height: 0 }
    }

    pub fn position(&self) -> (r: usize)
        ensures
            r == self.view().position,
    {
        self.scroll_position
    }

    /// Scroll by `delta` rows: up when negative, down when positive.
    pub fn scroll(&mut self, delta: i32)
        requires
            delta > i32::MIN,
        ensures
            final(self).view() == (ScrollView {
                position: if delta < 0 {
                    scrolled_up(old(self).view(), (-delta) as nat)
                } else if delta > 0 {
                    scrolled_down(old(self).view(), delta as nat)
                } else {
                    old(self).view().position
                },
                ..old(self).view()
            }),
    {
        if delta < 0 {
            self.scroll_up((-delta) as u32);
        } else if delta > 0 {
            self.scroll_down(delta as u32);
        }
    }

    pub fn scroll_up(&mut self, num_lines: u32)
        ensures
            final(self).view() == (ScrollView { position: scrolled_up(old(self).view(), num_lines as nat), ..old(self).view() }),
    {
        if self.scroll_position == STICK_TO_BOTTOM {
            self.scroll_position = self.num_rendered_lines.saturating_sub(self.last_viewport_height);
        }
        self.scroll_position = self.scroll_position.saturating_sub(num_lines as usize);
    }

    pub fn scroll_down(&mut self, num_lines: u32)
        ensures
            final(self).view() == (ScrollView {
                position: scrolled_down(old(self).view(), num_lines as nat),
                ..old(self).view()
            }),
    {
        if self.scroll_position == STICK_TO_BOTTOM {
            return;
        }
        let viewport_height = if self.last_viewport_height >= 1 {
            self.last_viewport_height
        } else {
            1
        };
        let max_scroll = self.num_rendered_lines.saturating_sub(viewport_height);
        let new_pos = self.scroll_position.saturating_add(num_lines as usize);
        if new_pos >= max_scroll {
            self.scroll_position = STICK_TO_BOTTOM;
        } else {
            self.scroll_position = new_pos;
        }
    }

    /// Follow the bottom again.
    pub fn scroll_to_bottom(&mut self)
        ensures
            final(self).view() == (ScrollView { position: STICK_TO_BOTTOM, ..old(self).view() }),
    {
        self.scroll_position = STICK_TO_BOTTOM;
    }

    /// Remember what a render measured.
    pub fn record_render(&mut self, num_lines: usize, viewport_height: usize)
        ensures
            final(self).view() == (ScrollView {
                position: old(self).view().position,
                rendered_lines: num_lines,
                viewport_height,
            }),
    {
        self.num_rendered_lines = num_lines;
        self.last_viewport_height = viewport_height;
    }

    /// The position to render `num_lines` rows in a viewport of `height`.
    pub fn render_position(&self, num_lines: usize, height: usize) -> (r: usize)
        ensures
            r == render_position(self.view().position, num_lines as nat, height as nat),
    {
        let max_scroll = num_lines.saturating_sub(height);
        if self.scroll_position == STICK_TO_BOTTOM {
            max_scroll
        } else if self.scroll_position < max_scroll {
            self.scroll_position
        } else {
            max_scroll
        }
    }
}

/// The part of each cell a viewport shows, from cell `i` on with `skip`
/// rows still above the viewport and `remaining` rows of it left to fill:
/// (cell, rows of it skipped, rows of it shown).
pub open spec fn window_from(hs: Seq<usize>, i: int, skip: nat, remaining: nat) -> Seq<(usize, usize, usize)>
    decreases hs.len() - i,
{
    if i < 0 || i >= hs.len() {
        Seq::empty()
    } else if skip >= hs[i] {
        window_from(hs, i + 1, (skip - hs[i]) as nat, remaining)
    } else {
        let rest = (hs[i] - skip) as nat;
        let vis = if rest < remaining {
            rest
        } else {
            remaining
        };
        if vis == 0 {
            Seq::empty()
        } else if remaining - vis == 0 {
            seq![(i as usize, skip as usize, vis as usize)]
        } else {
            seq![(i as usize, skip as usize, vis as usize)] + window_from(hs, i + 1, 0, (remaining - vis) as nat)
        }
    }
}

/// Rows shown by a window.
pub open spec fn shown_rows(w: Seq<(usize, usize, usize)>) -> nat
    decreases w.len(),
{
    if w.len() == 0 {
        0
    } else {
        w[0].2 as nat + shown_rows(w.drop_first())
    }
}

/// Rows of cells `i..`.
pub open spec fn rows_from(hs: Seq<usize>, i: int) -> nat
    decreases hs.len() - i,
{
    if i < 0 || i >= hs.len() {
        0
    } else {
        hs[i] as nat + rows_from(hs, i + 1)
    }
}

/// The cells a viewport of `height` rows shows at row `scroll_pos` of the
/// cells of heights `heights`: for each, its index, the rows of it skipped
/// above the viewport, and the rows of it shown.
pub fn visible_window(heights: &Vec<usize>, scroll_pos: usize, height: usize) -> (r: Vec<(usize, usize, usize)>)
    requires
        heights@.len() < usize::MAX,
    ensures
        r@ == window_from(heights@, 0, scroll_pos as nat, height as nat),
{
    let mut out: Vec<(usize, usize, usize)> = Vec::new();
    let mut skip = scroll_pos;
    let mut remaining = height;
    let mut i: usize = 0;
    while i < heights.len()
        invariant
            heights@.len() < usize::MAX,
            i <= heights@.len(),
            out@ + window_from(heights@, i as int, skip as nat, remaining as nat) == window_from(
                heights@,
                0,
                scroll_pos as nat,
                height as nat,
            ),
        decreases heights.len() - i,
    {
        let h = heights[i];
        let ghost s0 = skip as nat;
        let ghost r0 = remaining as nat;
        let ghost before = out@;
        if skip >= h {
            skip = skip - h;
        } else {
            let rest = h - skip;
            let vis = if rest < remaining {
                rest
            } else {
                remaining
            };
            if vis == 0 {
                proof {
                    assert(window_from(heights@, i as int, s0, r0) =~= Seq::<(usize, usize, usize)>::empty());
                    assert(out@ + Seq::<(usize, usize, usize)>::empty() =~= out@);
                }
                return out;
            }
            out.push((i, skip, vis));
            remaining = remaining - vis;
            skip = 0;
            if remaining == 0 {
                proof {
                    assert(window_from(heights@, i as int, s0, r0) =~= seq![(i, s0 as usize, vis)]);
                    assert(before + seq![(i, s0 as usize, vis)] =~= out@);
                }
                return out;
            }
            proof {
                assert(window_from(heights@, i as int, s0, r0) =~= seq![(i, s0 as usize, vis)] + window_from(
                    heights@,
                    i + 1,
                    0,
                    remaining as nat,
                ));
                assert(before + (seq![(i, s0 as usize, vis)] + window_from(heights@, i + 1, 0, remaining as nat))
                    =~= out@ + window_from(heights@, i + 1, 0, remaining as nat));
            }
        }
        i += 1;
    }
    proof {
        assert(window_from(heights@, i as int, skip as nat, remaining as nat) =~= Seq::<(usize, usize, usize)>::empty());
        assert(out@ + Seq::<(usize, usize, usize)>::empty() =~= out@);
    }
    out
}

proof fn lemma_window_rows(hs: Seq<usize>, i: int, skip: nat, remaining: nat)
    requires
        0 <= i <= hs.len(),
    ensures
        shown_rows(window_from(hs, i, skip, remaining)) == if remaining < sat_sub(rows_from(hs, i) as int, skip as int) {
            remaining as int
        } else {
            sat_sub(rows_from(hs, i) as int, skip as int)
        },
    decreases hs.len() - i,
{
    if i < hs.len() {
        assert(rows_from(hs, i) == hs[i] + rows_from(hs, i + 1));
        if skip >= hs[i] {
            lemma_window_rows(hs, i + 1, (skip - hs[i]) as nat, remaining);
            assert(window_from(hs, i, skip, remaining) == window_from(hs, i + 1, (skip - hs[i]) as nat, remaining));
        } else {
            let rest = (hs[i] - skip) as nat;
            let vis = if rest < remaining {
                rest
            } else {
                remaining
            };
            let w = window_from(hs, i, skip, remaining);
            if vis > 0 && remaining - vis > 0 {
                lemma_window_rows(hs, i + 1, 0, (remaining - vis) as nat);
                assert(w == seq![(i as usize, skip as usize, vis as usize)] + window_from(
                    hs,
                    i + 1,
                    0,
                    (remaining - vis) as nat,
                ));
                assert(w.drop_first() =~= window_from(hs, i + 1, 0, (remaining - vis) as nat));
                assert(shown_rows(w) == vis + shown_rows(w.drop_first()));
            } else if vis > 0 {
                assert(w == seq![(i as usize, skip as usize, vis as usize)]);
                assert(w.drop_first() =~= Seq::<(usize, usize, usize)>::empty());
                assert(shown_rows(w) == vis + shown_rows(w.drop_first()));
            } else {
                assert(w == Seq::<(usize, usize, usize)>::empty());
            }
        }
    } else {
        assert(window_from(hs, i, skip, remaining) == Seq::<(usize, usize, usize)>::empty());
    }
}

/// A viewport shows as many rows as it has, unless the cells below the
/// scroll position run out first: then it shows all of those.
pub proof fn law_window_fills_viewport(heights: Seq<usize>, scroll_pos: usize, height: usize)
    ensures
        shown_rows(window_from(heights, 0, scroll_pos as nat, height as nat)) == if height < sat_sub(
            rows_from(heights, 0) as int,
            scroll_pos as int,
        ) {
            height as int
        } else {
            sat_sub(rows_from(heights, 0) as int, scroll_pos as int)
        },
{
    lemma_window_rows(heights, 0, scroll_pos as nat, height as nat);
}

/// Scrolling up from the bottom and back down by as much returns to
/// following the bottom.
pub proof fn law_scroll_up_then_down_returns_to_bottom(v: ScrollView, n: nat)
    requires
        v.position == STICK_TO_BOTTOM,
        v.viewport_height >= 1,
        n <= u32::MAX,
    ensures
        scrolled_down(ScrollView { position: scrolled_up(v, n), ..v }, n) == STICK_TO_BOTTOM,
{
}

/// Wheel events add up over a short window, so a burst of them scrolls by
/// its total at once. A wheel event asks for the window's timer when none
/// runs; when the timer fires, the total of the burst is taken.
pub struct ScrollDebounce {
    scroll_delta: i32,
    timer_scheduled: bool,
}

/// How long a burst of wheel events is gathered, in milliseconds.
pub const DEBOUNCE_WINDOW_MS: u64 = 100;

pub open spec fn wrap_i32(x: int) -> i32 {
    if x > i32::MAX {
        (x - 0x1_0000_0000) as i32
    } else if x < i32::MIN {
        (x + 0x1_0000_0000) as i32
    } else {
        x as i32
    }
}

impl ScrollDebounce {
    pub closed spec fn delta(&self) -> i32 {
        self.scroll_delta
    }

    pub closed spec fn timer_scheduled(&self) -> bool {
        self.timer_scheduled
    }

    pub fn new() -> (r: Self)
        ensures
            r.delta() == 0,
            !r.timer_scheduled(),
    {
        ScrollDebounce { scroll_delta: 0, timer_scheduled: false }
    }

    /// A wheel event up (`up`) or down; whether the caller must start the
    /// timer (none runs yet).
    pub fn on_wheel(&mut self, up: bool) -> (start_timer: bool)
        ensures
            final(self).delta() == wrap_i32(old(self).delta() + if up {
                -1int
            } else {
                1int
            }),
            start_timer == !old(self).timer_scheduled(),
            final(self).timer_scheduled(),
    {
        if up {
            self.scroll_delta = if self.scroll_delta == i32::MIN {
                i32::MAX
            } else {
                self.scroll_delta - 1
            };
        } else {
            self.scroll_delta = if self.scroll_delta == i32::MAX {
                i32::MIN
            } else {
                self.scroll_delta + 1
            };
        }
        if self.timer_scheduled {
            false
        } else {
            self.timer_scheduled = true;
            true
        }
    }

    /// The timer fired: the burst's total, to scroll by when not zero.
    pub fn on_timer(&mut self) -> (r: Option<i32>)
        ensures
            r == if old(self).delta() != 0 {
                Some(old(self).delta())
            } else {
                None::<i32>
            },
            final(self).delta() == 0,
            !final(self).timer_scheduled(),
    {
        let accumulated = self.scroll_delta;
        self.scroll_delta = 0;
        self.timer_scheduled = false;
        if accumulated != 0 {
            Some(accumulated)
        } else {
            None
        }
    }
}

} // verus!
