//! Application state: up to two panes, layout direction, split ratio, focus
//! and input mode. A pane whose child process has exited is removed; the
//! surviving pane takes the full screen.
//!
//! Work that touches processes or terminals is left to the caller: spawning
//! the agent is split into `toggle_agent`/`ensure_agent_open`, which decide
//! and return an `AgentStep`, and `finish_spawn_agent`, which takes the
//! spawned pane; and every re-layout records the new pane sizes, which the
//! caller collects with `take_resizes` and applies to the PTYs and
//! terminals.

use vstd::prelude::*;
use crate::config::{Layout, clamp_ratio, clamp_ratio_exec, RATIO_SCALE};
use crate::pane::{Pane, SpawnSpec, clone_pairs, clone_strings};
use crate::text::push_str;

verus! {

/// A rectangle of terminal cells.
#[derive(Debug, Clone, Copy, PartialEq, Eq, Structural)]
pub struct Rect {
    pub x: u16,
    pub y: u16,
    pub width: u16,
    pub height: u16,
}

/// `a + b`, saturating at `u16::MAX`.
pub open spec fn sat_add(a: u16, b: u16) -> u16 {
    if a + b > u16::MAX {
        u16::MAX
    } else {
        (a + b) as u16
    }
}

/// `a - b`, saturating at 0.
pub open spec fn sat_sub(a: u16, b: u16) -> u16 {
    if a >= b {
        (a - b) as u16
    } else {
        0
    }
}

impl Rect {
    /// A rectangle, shrunk so that it does not reach past `u16::MAX`.
    pub open spec fn new_spec(x: u16, y: u16, width: u16, height: u16) -> Rect {
        Rect { x, y, width: (sat_add(x, width) - x) as u16, height: (sat_add(y, height) - y) as u16 }
    }

    /// A rectangle, shrunk so that it does not reach past `u16::MAX`.
    pub fn new(x: u16, y: u16, width: u16, height: u16) -> (r: Rect)
        ensures
            r == Rect::new_spec(x, y, width, height),
    {
        let width = x.saturating_add(width) - x;
        let height = y.saturating_add(height) - y;
        Rect { x, y, width, height }
    }

    /// The first column right of the rectangle.
    pub open spec fn right_spec(self) -> u16 {
        sat_add(self.x, self.width)
    }

    /// The first row below the rectangle.
    pub open spec fn bottom_spec(self) -> u16 {
        sat_add(self.y, self.height)
    }

    /// The first column right of the rectangle.
    pub fn right(&self) -> (r: u16)
        ensures
            r == self.right_spec(),
    {
        self.x.saturating_add(self.width)
    }

    /// The first row below the rectangle.
    pub fn bottom(&self) -> (r: u16)
        ensures
            r == self.bottom_spec(),
    {
        self.y.saturating_add(self.height)
    }

    /// Whether the cell at column `x`, row `y` lies in the rectangle.
    pub open spec fn contains_spec(self, x: u16, y: u16) -> bool {
        self.x <= x < self.right_spec() && self.y <= y < self.bottom_spec()
    }

    /// Whether the cell at column `x`, row `y` lies in the rectangle.
    pub fn contains(&self, x: u16, y: u16) -> (r: bool)
        ensures
            r == self.contains_spec(x, y),
    {
        x >= self.x && x < self.right() && y >= self.y && y < self.bottom()
    }
}

/// Which pane has the keyboard.
#[derive(Debug, Clone, Copy, PartialEq, Eq, Structural)]
pub enum Focus {
    Left,
    Right,
}

/// The other pane.
pub open spec fn other_focus(f: Focus) -> Focus {
    match f {
        Focus::Left => Focus::Right,
        Focus::Right => Focus::Left,
    }
}

impl Focus {
    /// The other pane.
    pub fn other(self) -> (r: Focus)
        ensures
            r == other_focus(self),
    {
        match self {
            Focus::Left => Focus::Right,
            Focus::Right => Focus::Left,
        }
    }
}

/// Switching the focus twice gives it back to the same pane.
pub proof fn law_other_involution(f: Focus)
    ensures
        other_focus(other_focus(f)) == f,
        other_focus(f) != f,
{
}

/// Where keyboard input goes.
#[derive(Debug, Clone, Copy, PartialEq, Eq, Structural)]
pub enum Mode {
    /// Input is forwarded to the focused pane.
    Normal,
    /// Arrow/page keys scroll the focused pane's history.
    Scroll,
}

/// How to (re)spawn the agent pane.
#[derive(Debug)]
pub struct AgentSpec {
    pub program: String,
    pub args: Vec<String>,
    pub env: Vec<(String, String)>,
    /// The startup cwd of the TUI (used for every respawn).
    pub cwd: Option<String>,
}

/// The size of the first (left or top) pane along the split: the ratio (in
/// parts per million) of `total`, rounded to the nearest cell, halves
/// rounded up. The product is exact; a ratio held as a binary fraction and
/// multiplied in single precision can land on the other side of a half
/// cell (0.53 of 50 rows gives 26.4999... there, and 27 here).
pub open spec fn split_cells(total: u16, ratio: u32) -> nat {
    ((total as nat) * (ratio as nat) + 500_000) / (RATIO_SCALE as nat)
}

/// `split_cells` kept between 2 and `total - 2` (2 on screens narrower
/// than 4).
pub open spec fn clamp_split(v: nat, total: u16) -> u16 {
    let hi: nat = if total >= 4 {
        (total - 2) as nat
    } else {
        2
    };
    if v < 2 {
        2
    } else if v > hi {
        hi as u16
    } else {
        v as u16
    }
}

/// The two pane rects for a terminal of `term_size` (width, height), split
/// in `layout` direction at `ratio` parts per million for the left/top
/// pane.
pub open spec fn pane_areas_spec(term_size: (u16, u16), layout: Layout, ratio: u32) -> (Rect, Rect) {
    let (w, h) = term_size;
    match layout {
        Layout::Horizontal => {
            let lw = clamp_split(split_cells(w, ratio), w);
            (Rect::new_spec(0, 0, lw, h), Rect::new_spec(lw, 0, sat_sub(w, lw), h))
        },
        Layout::Vertical => {
            let th = clamp_split(split_cells(h, ratio), h);
            (Rect::new_spec(0, 0, w, th), Rect::new_spec(0, th, w, sat_sub(h, th)))
        },
    }
}

/// `split_cells` and `clamp_split` computed.
fn split_at(total: u16, ratio: u32) -> (r: u16)
    ensures
        r == clamp_split(split_cells(total, ratio), total),
{
    let t = total as u64;
    let r = ratio as u64;
    assert(t * r <= 0xffff * 0xffff_ffffu64) by (nonlinear_arith)
        requires
            t <= 0xffff,
            r <= 0xffff_ffff,
    ;
    let v = (t * r + 500_000) / 1_000_000;
    let hi: u64 = if total >= 4 {
        (total - 2) as u64
    } else {
        2
    };
    if v < 2 {
        2
    } else if v > hi {
        hi as u16
    } else {
        v as u16
    }
}

/// Computes the two pane rects for a terminal of `term_size`, splitting in
/// `layout` direction at `ratio` (parts per million for the left/top pane).
pub fn pane_areas(term_size: (u16, u16), layout: Layout, ratio: u32) -> (r: (Rect, Rect))
    ensures
        r == pane_areas_spec(term_size, layout, ratio),
{
    let (w, h) = term_size;
    match layout {
        Layout::Horizontal => {
            let lw = split_at(w, ratio);
            (Rect::new(0, 0, lw, h), Rect::new(lw, 0, w.saturating_sub(lw), h))
        },
        Layout::Vertical => {
            let th = split_at(h, ratio);
            (Rect::new(0, 0, w, th), Rect::new(0, th, w, h.saturating_sub(th)))
        },
    }
}

/// On a screen at least 4 cells across the split, the two areas tile it:
/// the second starts where the first ends and together they span the
/// whole screen, each at least 2 cells.
pub proof fn law_pane_areas_tile(term_size: (u16, u16), layout: Layout, ratio: u32)
    ensures
        ({
            let (a, b) = pane_areas_spec(term_size, layout, ratio);
            let (w, h) = term_size;
            match layout {
                Layout::Horizontal => w >= 4 ==> {
                    &&& a.x == 0 && a.y == 0 && a.height == h
                    &&& b.x == a.width && b.y == 0 && b.height == h
                    &&& a.width + b.width == w
                    &&& a.width >= 2 && b.width >= 2
                },
                Layout::Vertical => h >= 4 ==> {
                    &&& a.x == 0 && a.y == 0 && a.width == w
                    &&& b.x == 0 && b.y == a.height && b.width == w
                    &&& a.height + b.height == h
                    &&& a.height >= 2 && b.height >= 2
                },
            }
        }),
{
}

/// Inner (content) size of a pane rect inside its border, as (rows, cols),
/// at least 1 each.
pub open spec fn inner_size_spec(area: Rect) -> (u16, u16) {
    (
        if sat_sub(area.height, 2) >= 1 { sat_sub(area.height, 2) } else { 1 },
        if sat_sub(area.width, 2) >= 1 { sat_sub(area.width, 2) } else { 1 },
    )
}

/// `a + b` clamped to `lo..=hi`.
pub open spec fn clamp_int(v: int, lo: int, hi: int) -> int {
    if v < lo {
        lo
    } else if v > hi {
        hi
    } else {
        v
    }
}

/// The title of the agent pane: `agent: <program> — <cwd>` (`?` for an
/// unknown cwd).
pub open spec fn agent_title_spec(program: Seq<char>, cwd: Option<Seq<char>>) -> Seq<char> {
    "agent: "@ + program + " \u{2014} "@ + match cwd {
        Some(d) => d,
        None => "?"@,
    }
}

/// The title of the agent pane.
pub fn agent_title(program: &str, cwd: Option<&str>) -> (r: String)
    ensures
        r@ == agent_title_spec(
            program@,
            match cwd {
                Some(d) => Some(d@),
                None => None,
            },
        ),
{
    let mut name = String::new();
    push_str(&mut name, "agent: ");
    push_str(&mut name, program);
    push_str(&mut name, " \u{2014} ");
    match cwd {
        Some(d) => push_str(&mut name, d),
        None => push_str(&mut name, "?"),
    }
    name
}

/// What the caller must do next for a toggle-agent request.
pub enum AgentStep {
    /// Nothing more; the message says what happened.
    Done(String),
    /// Spawn the agent as described and hand the pane to
    /// `App::finish_spawn_agent`.
    Spawn(AgentLaunch),
}

/// The agent pane to spawn: its title and process.
pub struct AgentLaunch {
    pub name: String,
    pub spec: SpawnSpec,
}

/// The application state.
pub struct App<H> {
    pub left: Option<Pane<H>>,
    pub right: Option<Pane<H>>,
    pub focus: Focus,
    pub layout: Layout,
    /// Split ratio for the left/top pane, in parts per million (0.1..=0.9).
    pub ratio: u32,
    pub mode: Mode,
    pub term_size: (u16, u16),
    /// True while the user drags the divider with the mouse.
    pub dragging: bool,
    pub should_quit: bool,
    pub scrollback_limit: usize,
    /// The agent pane is hidden (suspended, not killed): its child process
    /// and terminal state keep running in the background.
    pub agent_hidden: bool,
    /// Set by the toggle-agent key binding; the main loop performs the
    /// actual spawn/hide.
    pub toggle_agent_requested: bool,
    /// True after the prefix key was pressed, until the next key press.
    pub prefix_pending: bool,
    /// Zoomed view: the focused pane takes the full screen while the other
    /// keeps running in the background without a rect.
    pub zoomed: bool,
    /// How the agent pane is (re)spawned.
    pub agent: AgentSpec,
    /// The (rows, cols) the left pane's PTY and terminal are to be resized
    /// to, recorded by the last re-layout and not yet collected.
    pub pending_left: Option<(u16, u16)>,
    /// The same for the right pane.
    pub pending_right: Option<(u16, u16)>,
}

impl<H> App<H> {
    /// The agent pane is visible only when it exists and is not hidden.
    pub open spec fn agent_visible_spec(self) -> bool {
        self.right is Some && !self.agent_hidden
    }

    /// The rects of the panes to draw and resize. A lone (or the only
    /// visible) pane gets the full screen; a hidden agent pane gets none.
    /// When zoomed, the focused pane takes the full screen.
    pub open spec fn rects_spec(self) -> (Option<Rect>, Option<Rect>) {
        let full = Rect::new_spec(0, 0, self.term_size.0, self.term_size.1);
        if self.left is Some && self.agent_visible_spec() {
            if self.zoomed {
                match self.focus {
                    Focus::Left => (Some(full), None),
                    Focus::Right => (None, Some(full)),
                }
            } else {
                let (l, r) = pane_areas_spec(self.term_size, self.layout, self.ratio);
                (Some(l), Some(r))
            }
        } else if self.left is Some {
            (Some(full), None)
        } else if self.agent_visible_spec() {
            (None, Some(full))
        } else {
            (None, None)
        }
    }

    /// Whether the zoomed view is on: zoomed with both panes shown. The
    /// zoomed view is borderless, so the focused pane's content fills the
    /// whole screen.
    pub open spec fn zoom_active_spec(self) -> bool {
        self.zoomed && self.left is Some && self.agent_visible_spec()
    }

    /// The (rows, cols) of a pane's content in `area`: inside the border,
    /// or all of it in the borderless zoomed view; at least 1 each.
    pub open spec fn content_size_spec(self, area: Rect) -> (u16, u16) {
        if self.zoom_active_spec() {
            (
                if area.height >= 1 { area.height } else { 1 },
                if area.width >= 1 { area.width } else { 1 },
            )
        } else {
            inner_size_spec(area)
        }
    }

    /// The state after a re-layout: every pane that has a rect is to be
    /// resized to its content size; the others are left untouched.
    pub open spec fn relaid(self) -> App<H> {
        let (la, ra) = self.rects_spec();
        App {
            pending_left: if la is Some && self.left is Some {
                Some(self.content_size_spec(la.unwrap()))
            } else {
                self.pending_left
            },
            pending_right: if ra is Some && self.right is Some {
                Some(self.content_size_spec(ra.unwrap()))
            } else {
                self.pending_right
            },
            ..self
        }
    }

    /// The focused pane, if it exists.
    pub open spec fn focused_spec(self) -> Option<Pane<H>> {
        match self.focus {
            Focus::Left => self.left,
            Focus::Right => self.right,
        }
    }

    /// The state with the focused pane replaced by `p`.
    pub open spec fn with_focused(self, p: Pane<H>) -> App<H> {
        match self.focus {
            Focus::Left => App { left: Some(p), ..self },
            Focus::Right => App { right: Some(p), ..self },
        }
    }

    /// The state after scrolling the focused pane by `delta` lines
    /// (positive = backwards), kept between 0 and the scrollback limit;
    /// reaching the bottom leaves scroll mode.
    pub open spec fn scrolled(self, delta: int) -> App<H> {
        match self.focused_spec() {
            Some(p) => {
                let s = clamp_int(p.scroll + delta, 0, self.scrollback_limit as int) as usize;
                let a = self.with_focused(Pane { scroll: s, ..p });
                if s == 0 {
                    App { mode: Mode::Normal, ..a }
                } else {
                    a
                }
            },
            None => self,
        }
    }

    /// The height of the focused pane's content area, if it has a rect.
    pub open spec fn focused_page(self) -> Option<int> {
        let (la, ra) = self.rects_spec();
        let area = match self.focus {
            Focus::Left => la,
            Focus::Right => ra,
        };
        match area {
            Some(a) => Some(self.content_size_spec(a).0 as int),
            None => None,
        }
    }

    /// The state after scrolling the focused pane by one page (`sign`
    /// selects the direction).
    pub open spec fn page_scrolled(self, sign: int) -> App<H> {
        match self.focused_page() {
            Some(page) => self.scrolled(sign * page),
            None => self,
        }
    }

    /// The state after the zoom toggle: with both panes visible the zoom
    /// flips and the panes are re-laid out; otherwise nothing changes.
    pub open spec fn zoom_toggled(self) -> App<H> {
        if self.left is Some && self.agent_visible_spec() {
            App { zoomed: !self.zoomed, ..self }.relaid()
        } else {
            self
        }
    }

    /// Whether the left pane exists and its process has exited.
    pub open spec fn left_dead(self) -> bool {
        self.left matches Some(p) && !p.alive
    }

    /// Whether the right pane exists and its process has exited.
    pub open spec fn right_dead(self) -> bool {
        self.right matches Some(p) && !p.alive
    }

    /// The indices of the panes that `close_dead_panes` closes.
    pub open spec fn dead_indices(self) -> Seq<usize> {
        (if self.left_dead() {
            seq![0usize]
        } else {
            Seq::<usize>::empty()
        }) + (if self.right_dead() {
            seq![1usize]
        } else {
            Seq::<usize>::empty()
        })
    }

    /// The state after closing the dead panes: the survivor keeps or gets the
    /// focus and is re-laid out; a hidden agent pane that died is unhidden,
    /// and so is the agent when it is the only pane left; the zoom and
    /// scroll mode end.
    pub open spec fn dead_closed(self) -> App<H> {
        if !self.left_dead() && !self.right_dead() {
            self
        } else {
            let a1 = if self.left_dead() {
                App { left: None, ..self }
            } else {
                self
            };
            let a2 = if self.right_dead() {
                App { right: None, agent_hidden: false, ..a1 }
            } else {
                a1
            };
            let a3 = App { zoomed: false, ..a2 };
            let a4 = if a3.left is None && a3.right is Some {
                App { agent_hidden: false, ..a3 }
            } else {
                a3
            };
            let a5 = if a4.focus == Focus::Left && a4.left is None {
                App { focus: Focus::Right, ..a4 }
            } else {
                a4
            };
            let a6 = if a5.focus == Focus::Right && (!a5.agent_visible_spec() || a5.right is None)
                && a5.left is Some {
                App { focus: Focus::Left, ..a5 }
            } else {
                a5
            };
            App { mode: Mode::Normal, ..a6 }.relaid()
        }
    }

    /// Whether the agent pane exists and its process runs.
    pub open spec fn agent_alive(self) -> bool {
        self.right matches Some(p) && p.alive
    }

    /// The state after showing the agent pane again.
    pub open spec fn agent_shown(self) -> App<H> {
        App { agent_hidden: false, focus: Focus::Right, ..self }.relaid()
    }

    /// The state after the toggle-agent action while the agent runs: a
    /// hidden agent is shown again; a visible one is hidden (the shell pane
    /// takes the screen and the focus) unless it is the only pane, which
    /// just keeps the focus.
    pub open spec fn toggled_alive(self) -> App<H> {
        if self.agent_hidden {
            self.agent_shown()
        } else if self.left is Some {
            App { agent_hidden: true, focus: Focus::Left, ..self }.relaid()
        } else {
            App { focus: Focus::Right, ..self }
        }
    }

    /// The message of the toggle-agent action while the agent runs.
    pub open spec fn toggled_alive_msg(self) -> Seq<char> {
        if self.agent_hidden {
            "agent pane shown"@
        } else if self.left is Some {
            "agent pane hidden"@
        } else {
            "agent pane focused"@
        }
    }

    /// The state after the open-agent request while the agent runs: shown
    /// if hidden, and focused.
    pub open spec fn opened_alive(self) -> App<H> {
        if self.agent_hidden {
            self.agent_shown()
        } else {
            App { focus: Focus::Right, ..self }
        }
    }

    /// The message of the open-agent request while the agent runs.
    pub open spec fn opened_alive_msg(self) -> Seq<char> {
        if self.agent_hidden {
            "agent pane shown"@
        } else {
            "agent pane focused"@
        }
    }

    /// Well-formedness kept by every operation: the ratio lies in
    /// 0.1..=0.9 and no pane's view is scrolled past the scrollback limit.
    pub open spec fn wf(self) -> bool {
        &&& crate::config::RATIO_MIN <= self.ratio <= crate::config::RATIO_MAX
        &&& self.left matches Some(p) ==> p.scroll <= self.scrollback_limit
        &&& self.right matches Some(p) ==> p.scroll <= self.scrollback_limit
    }

    /// The state while the agent is being (re)spawned.
    pub open spec fn agent_cleared(self) -> App<H> {
        App { right: None, agent_hidden: false, ..self }
    }

    /// The agent pane to spawn: sized as the right/bottom pane of the split
    /// and titled `agent: <program> — <cwd>` (`?` for an unknown cwd).
    pub open spec fn launch_ok(self, l: AgentLaunch) -> bool {
        let (_, ra) = pane_areas_spec(self.term_size, self.layout, self.ratio);
        let (rows, cols) = inner_size_spec(ra);
        &&& l.name@ == agent_title_spec(
            self.agent.program@,
            match self.agent.cwd {
                Some(d) => Some(d@),
                None => None,
            },
        )
        &&& l.spec.program@ == self.agent.program@
        &&& l.spec.args@ == self.agent.args@
        &&& l.spec.env@ == self.agent.env@
        &&& l.spec.cwd == self.agent.cwd
        &&& l.spec.rows == rows
        &&& l.spec.cols == cols
    }
}

impl<H> App<H> {
    /// A new application state. The left pane has the focus if it exists;
    /// the ratio is clamped to 0.1..=0.9; the terminal is assumed to be
    /// 80x24 until told otherwise.
    pub fn new(
        left: Option<Pane<H>>,
        right: Option<Pane<H>>,
        layout: Layout,
        ratio: u32,
        scrollback_limit: usize,
        agent: AgentSpec,
    ) -> (app: App<H>)
        ensures
            app == (App {
                left,
                right,
                focus: if left is Some {
                    Focus::Left
                } else {
                    Focus::Right
                },
                layout,
                ratio: clamp_ratio(ratio),
                mode: Mode::Normal,
                term_size: (80u16, 24u16),
                dragging: false,
                should_quit: false,
                scrollback_limit,
                agent_hidden: false,
                toggle_agent_requested: false,
                prefix_pending: false,
                zoomed: false,
                agent,
                pending_left: None,
                pending_right: None,
            }),
    {
        let focus = if left.is_some() {
            Focus::Left
        } else {
            Focus::Right
        };
        App {
            left,
            right,
            focus,
            layout,
            ratio: clamp_ratio_exec(ratio),
            mode: Mode::Normal,
            term_size: (80, 24),
            dragging: false,
            should_quit: false,
            scrollback_limit,
            agent_hidden: false,
            toggle_agent_requested: false,
            prefix_pending: false,
            zoomed: false,
            agent,
            pending_left: None,
            pending_right: None,
        }
    }

    /// The agent pane is visible only when it exists and is not hidden.
    pub fn agent_visible(&self) -> (r: bool)
        ensures
            r == self.agent_visible_spec(),
    {
        self.right.is_some() && !self.agent_hidden
    }

    /// Rects of the panes to draw/resize.
    pub fn rects(&self) -> (r: (Option<Rect>, Option<Rect>))
        ensures
            r == self.rects_spec(),
    {
        let full = Rect::new(0, 0, self.term_size.0, self.term_size.1);
        let l = self.left.is_some();
        let v = self.agent_visible();
        if l && v {
            if self.zoomed {
                match self.focus {
                    Focus::Left => (Some(full), None),
                    Focus::Right => (None, Some(full)),
                }
            } else {
                let (a, b) = pane_areas(self.term_size, self.layout, self.ratio);
                (Some(a), Some(b))
            }
        } else if l {
            (Some(full), None)
        } else if v {
            (None, Some(full))
        } else {
            (None, None)
        }
    }

    /// Inner (content) size of a pane rect, as (rows, cols).
    pub fn inner_size(area: Rect) -> (r: (u16, u16))
        ensures
            r == inner_size_spec(area),
    {
        let h = area.height.saturating_sub(2);
        let w = area.width.saturating_sub(2);
        (if h >= 1 { h } else { 1 }, if w >= 1 { w } else { 1 })
    }

    /// Records the terminal size (width, height).
    pub fn set_term_size(&mut self, w: u16, h: u16)
        ensures
            *final(self) == (App { term_size: (w, h), ..*old(self) }),
    {
        self.term_size = (w, h);
    }

    /// Whether the (borderless) zoomed view is on.
    pub fn zoom_active(&self) -> (r: bool)
        ensures
            r == self.zoom_active_spec(),
    {
        self.zoomed && self.left.is_some() && self.agent_visible()
    }

    /// The (rows, cols) of a pane's content in `area`.
    pub fn content_size(&self, area: Rect) -> (r: (u16, u16))
        ensures
            r == self.content_size_spec(area),
    {
        if self.zoom_active() {
            (
                if area.height >= 1 { area.height } else { 1 },
                if area.width >= 1 { area.width } else { 1 },
            )
        } else {
            Self::inner_size(area)
        }
    }

    /// Recomputes the pane sizes; the panes that have a rect are to be
    /// resized (see `take_resizes`).
    pub fn relayout(&mut self)
        ensures
            *final(self) == old(self).relaid(),
    {
        let (la, ra) = self.rects();
        if let (Some(area), true) = (la, self.left.is_some()) {
            self.pending_left = Some(self.content_size(area));
        }
        if let (Some(area), true) = (ra, self.right.is_some()) {
            self.pending_right = Some(self.content_size(area));
        }
    }

    /// Collects the pane sizes recorded by the re-layouts since the last
    /// call, as (left, right) (rows, cols).
    pub fn take_resizes(&mut self) -> (r: (Option<(u16, u16)>, Option<(u16, u16)>))
        ensures
            r == (old(self).pending_left, old(self).pending_right),
            *final(self) == (App { pending_left: None, pending_right: None, ..*old(self) }),
    {
        let r = (self.pending_left, self.pending_right);
        self.pending_left = None;
        self.pending_right = None;
        r
    }

    /// The focused pane.
    pub fn focused(&self) -> (r: Option<&Pane<H>>)
        ensures
            (r is Some) == (self.focused_spec() is Some),
            r matches Some(p) ==> *p == self.focused_spec().unwrap(),
    {
        match self.focus {
            Focus::Left => self.left.as_ref(),
            Focus::Right => self.right.as_ref(),
        }
    }

    /// The focused pane, for changing it (e.g. writing input to it).
    pub fn focused_mut(&mut self) -> (r: Option<&mut Pane<H>>)
        ensures
            match old(self).focused_spec() {
                None => r is None && *final(self) == *old(self),
                Some(p) => r matches Some(q) && *q == p && *final(self) == old(self).with_focused(
                    *final(q),
                ),
            },
    {
        match self.focus {
            Focus::Left => self.left.as_mut(),
            Focus::Right => self.right.as_mut(),
        }
    }

    /// Scrolls the focused pane by `delta` lines (positive = backwards),
    /// within 0 and the scrollback limit; reaching the bottom leaves scroll
    /// mode.
    pub fn scroll_focused(&mut self, delta: isize)
        requires
            old(self).scrollback_limit <= isize::MAX,
        ensures
            *final(self) == old(self).scrolled(delta as int),
    {
        let limit = self.scrollback_limit as i128;
        let focus = self.focus;
        let slot = match focus {
            Focus::Left => &mut self.left,
            Focus::Right => &mut self.right,
        };
        if let Some(pane) = slot {
            let v = pane.scroll as i128 + delta as i128;
            let s: usize = if v < 0 {
                0
            } else if v > limit {
                limit as usize
            } else {
                v as usize
            };
            pane.scroll = s;
            if s == 0 {
                self.mode = Mode::Normal;
            }
        }
    }

    /// Scrolls the focused pane by one page (`sign` selects the direction).
    pub fn scroll_page_focused(&mut self, sign: isize)
        requires
            old(self).scrollback_limit <= isize::MAX,
            old(self).focused_page() matches Some(p) ==> isize::MIN <= sign * p <= isize::MAX,
        ensures
            *final(self) == old(self).page_scrolled(sign as int),
    {
        let (la, ra) = self.rects();
        let area = match self.focus {
            Focus::Left => la,
            Focus::Right => ra,
        };
        if let Some(area) = area {
            let page = self.content_size(area).0 as isize;
            self.scroll_focused(sign * page);
        }
    }

    /// Key-binding action: zooms the focused pane to the full screen
    /// (toggle). A no-op unless both panes are visible.
    pub fn toggle_zoom(&mut self)
        ensures
            *final(self) == old(self).zoom_toggled(),
    {
        if self.left.is_some() && self.agent_visible() {
            self.zoomed = !self.zoomed;
            self.relayout();
        }
    }

    /// Refreshes the panes' `alive` flags from whether their child
    /// processes have exited.
    pub fn poll_alive(&mut self, left_exited: bool, right_exited: bool)
        ensures
            *final(self) == (App {
                left: match old(self).left {
                    Some(p) => Some(Pane { alive: p.alive && !left_exited, ..p }),
                    None => None,
                },
                right: match old(self).right {
                    Some(p) => Some(Pane { alive: p.alive && !right_exited, ..p }),
                    None => None,
                },
                ..*old(self)
            }),
    {
        if let Some(p) = &mut self.left {
            p.poll_alive(left_exited);
        }
        if let Some(p) = &mut self.right {
            p.poll_alive(right_exited);
        }
    }

    /// Removes panes whose child has exited. Returns the indices of the
    /// closed panes (0 = left, 1 = right).
    pub fn close_dead_panes(&mut self) -> (closed: Vec<usize>)
        ensures
            closed@ == old(self).dead_indices(),
            *final(self) == old(self).dead_closed(),
    {
        let mut closed: Vec<usize> = Vec::new();
        let left_dead = match &self.left {
            Some(p) => !p.alive,
            None => false,
        };
        let right_dead = match &self.right {
            Some(p) => !p.alive,
            None => false,
        };
        if left_dead {
            self.left = None;
            closed.push(0);
        }
        if right_dead {
            self.right = None;
            self.agent_hidden = false;
            closed.push(1);
        }
        if closed.len() > 0 {
            self.zoomed = false;
            if self.left.is_none() && self.right.is_some() {
                self.agent_hidden = false;
            }
            if self.focus == Focus::Left && self.left.is_none() {
                self.focus = Focus::Right;
            }
            if self.focus == Focus::Right && (!self.agent_visible() || self.right.is_none())
                && self.left.is_some() {
                self.focus = Focus::Left;
            }
            self.mode = Mode::Normal;
            self.relayout();
        }
        assert(closed@ =~= old(self).dead_indices());
        closed
    }

    /// Whether both panes are gone.
    pub fn all_closed(&self) -> (r: bool)
        ensures
            r == (self.left is None && self.right is None),
    {
        self.left.is_none() && self.right.is_none()
    }

    /// Key-binding action: toggles the agent panel. Hiding is a suspend:
    /// the agent process and its terminal state stay alive in the
    /// background. A pane whose process exited (or that never started) is
    /// respawned instead.
    pub fn toggle_agent(&mut self) -> (r: AgentStep)
        ensures
            old(self).agent_alive() ==> (r matches AgentStep::Done(m) && m@ == old(
                self,
            ).toggled_alive_msg() && *final(self) == old(self).toggled_alive()),
            !old(self).agent_alive() ==> (r matches AgentStep::Spawn(l) && old(self).launch_ok(l)
                && *final(self) == old(self).agent_cleared()),
    {
        if self.agent_is_alive() {
            if self.agent_hidden {
                AgentStep::Done(self.show_agent())
            } else if self.left.is_some() {
                self.agent_hidden = true;
                self.focus = Focus::Left;
                self.relayout();
                AgentStep::Done(String::from_str("agent pane hidden"))
            } else {
                self.focus = Focus::Right;
                AgentStep::Done(String::from_str("agent pane focused"))
            }
        } else {
            AgentStep::Spawn(self.begin_spawn_agent())
        }
    }

    /// IPC action (`ta` with no subcommand): makes sure the agent pane is
    /// open and visible, then focuses it.
    pub fn ensure_agent_open(&mut self) -> (r: AgentStep)
        ensures
            old(self).agent_alive() ==> (r matches AgentStep::Done(m) && m@ == old(
                self,
            ).opened_alive_msg() && *final(self) == old(self).opened_alive()),
            !old(self).agent_alive() ==> (r matches AgentStep::Spawn(l) && old(self).launch_ok(l)
                && *final(self) == old(self).agent_cleared()),
    {
        if self.agent_is_alive() {
            if self.agent_hidden {
                AgentStep::Done(self.show_agent())
            } else {
                self.focus = Focus::Right;
                AgentStep::Done(String::from_str("agent pane focused"))
            }
        } else {
            AgentStep::Spawn(self.begin_spawn_agent())
        }
    }

    fn agent_is_alive(&self) -> (r: bool)
        ensures
            r == self.agent_alive(),
    {
        match &self.right {
            Some(p) => p.alive,
            None => false,
        }
    }

    fn show_agent(&mut self) -> (m: String)
        ensures
            m@ == "agent pane shown"@,
            *final(self) == old(self).agent_shown(),
    {
        self.agent_hidden = false;
        self.focus = Focus::Right;
        self.relayout();
        String::from_str("agent pane shown")
    }

    /// Clears the agent slot and describes the pane to spawn in it.
    fn begin_spawn_agent(&mut self) -> (l: AgentLaunch)
        ensures
            old(self).launch_ok(l),
            *final(self) == old(self).agent_cleared(),
    {
        self.right = None;
        self.agent_hidden = false;
        let (_, ra) = pane_areas(self.term_size, self.layout, self.ratio);
        let (rows, cols) = Self::inner_size(ra);
        let name = agent_title(
            self.agent.program.as_str(),
            match &self.agent.cwd {
                Some(d) => Some(d.as_str()),
                None => None,
            },
        );
        let spec = SpawnSpec {
            program: self.agent.program.clone(),
            args: clone_strings(&self.agent.args),
            env: clone_pairs(&self.agent.env),
            cwd: match &self.agent.cwd {
                Some(d) => Some(d.clone()),
                None => None,
            },
            rows,
            cols,
        };
        AgentLaunch { name, spec }
    }

    /// Takes the agent pane spawned for an `AgentStep::Spawn`. A pane whose
    /// process started is shown, focused and laid out; otherwise the agent
    /// stays closed and the message carries the spawn error.
    pub fn finish_spawn_agent(&mut self, pane: Pane<H>) -> (m: String)
        ensures
            pane.alive ==> m@ == "agent pane opened"@ && *final(self) == (App {
                right: Some(pane),
                focus: Focus::Right,
                ..*old(self)
            }).relaid(),
            !pane.alive ==> m@ == "failed to open agent pane: "@ + match pane.spawn_error {
                Some(e) => e@,
                None => "unknown error"@,
            } && *final(self) == *old(self),
    {
        if pane.alive {
            self.right = Some(pane);
            self.focus = Focus::Right;
            self.relayout();
            String::from_str("agent pane opened")
        } else {
            let mut m = String::new();
            push_str(&mut m, "failed to open agent pane: ");
            match &pane.spawn_error {
                Some(e) => push_str(&mut m, e.as_str()),
                None => push_str(&mut m, "unknown error"),
            }
            m
        }
    }
}


/// When one pane's process exits while the other's runs, the dead pane
/// closes and the survivor gets the focus and the whole screen (a hidden
/// agent is shown when the shell goes).
pub proof fn law_survivor_fullscreen<H>(a: App<H>)
    requires
        (a.left_dead() && a.agent_alive()) || (a.right_dead() && (a.left matches Some(p) && p.alive)),
    ensures
        ({
            let b = a.dead_closed();
            let full = Rect::new_spec(0, 0, a.term_size.0, a.term_size.1);
            &&& a.left_dead() ==> b.left is None && b.right == a.right && b.focus == Focus::Right
                && !b.agent_hidden && b.rects_spec() == (None::<Rect>, Some(full))
            &&& a.right_dead() ==> b.right is None && b.left == a.left && b.focus == Focus::Left
                && b.rects_spec() == (Some(full), None::<Rect>)
        }),
{
}

/// Closing the dead panes leaves only live panes, ends the zoom and scroll
/// mode, and leaves the focus on a pane that is shown whenever a pane is
/// left.
pub proof fn law_dead_closed<H>(a: App<H>)
    requires
        a.left_dead() || a.right_dead(),
    ensures
        ({
            let b = a.dead_closed();
            &&& b.left matches Some(p) ==> p.alive
            &&& b.right matches Some(p) ==> p.alive
            &&& !b.zoomed
            &&& b.mode == Mode::Normal
            &&& b.focus == Focus::Left && (b.left is Some || b.right is Some) ==> b.left is Some
            &&& b.focus == Focus::Right && (b.left is Some || b.right is Some)
                ==> b.agent_visible_spec()
        }),
{
}

/// Hiding a running agent beside the shell suspends it: the agent pane and
/// its process stay, it gets no rect and the shell takes the screen and the
/// focus; toggling again shows it with the focus, and both panes are as
/// before.
pub proof fn law_toggle_hide_show<H>(a: App<H>)
    requires
        a.agent_alive(),
        !a.agent_hidden,
        a.left is Some,
    ensures
        ({
            let b = a.toggled_alive();
            let c = b.toggled_alive();
            let full = Rect::new_spec(0, 0, a.term_size.0, a.term_size.1);
            &&& b.agent_hidden && b.agent_alive() && b.right == a.right && b.left == a.left
            &&& b.focus == Focus::Left
            &&& b.rects_spec() == (Some(full), None::<Rect>)
            &&& !c.agent_hidden && c.focus == Focus::Right
            &&& c.right == a.right && c.left == a.left
            &&& c.rects_spec().1 is Some
        }),
{
}

/// An open-agent request on a running agent leaves it shown and focused.
pub proof fn law_open_agent_visible<H>(a: App<H>)
    requires
        a.agent_alive(),
    ensures
        a.opened_alive().agent_visible_spec(),
        a.opened_alive().focus == Focus::Right,
        a.opened_alive().right == a.right,
{
}

/// Zooming with both panes shown gives the focused pane the whole screen
/// and no rect to the other; zooming again restores the split.
pub proof fn law_zoom_roundtrip<H>(a: App<H>)
    requires
        a.left is Some,
        a.agent_visible_spec(),
        !a.zoomed,
    ensures
        ({
            let b = a.zoom_toggled();
            let c = b.zoom_toggled();
            let full = Rect::new_spec(0, 0, a.term_size.0, a.term_size.1);
            &&& b.zoomed
            &&& b.rects_spec() == match a.focus {
                Focus::Left => (Some(full), None::<Rect>),
                Focus::Right => (None::<Rect>, Some(full)),
            }
            &&& !c.zoomed
            &&& c.rects_spec() == a.rects_spec()
        }),
{
}

/// Scrolling the focused pane back to the bottom leaves scroll mode.
pub proof fn law_bottom_leaves_scroll_mode<H>(a: App<H>, delta: int)
    requires
        a.focused_spec() matches Some(p) && p.scroll + delta <= 0,
    ensures
        a.scrolled(delta).mode == Mode::Normal,
        a.scrolled(delta).focused_spec() matches Some(q) && q.scroll == 0,
{
}

/// A new application state is well formed when its panes show the live
/// view (as freshly spawned panes do).
pub proof fn law_new_wf<H>(a: App<H>, ratio: u32)
    requires
        a.ratio == clamp_ratio(ratio),
        a.left matches Some(p) ==> p.scroll == 0,
        a.right matches Some(p) ==> p.scroll == 0,
    ensures
        a.wf(),
{
}

/// Every state change keeps the ratio in 0.1..=0.9 and each pane's view
/// within the scrollback.
pub proof fn law_wf_kept<H>(a: App<H>, delta: int, sign: int, pane: Pane<H>)
    requires
        a.wf(),
        pane.scroll <= a.scrollback_limit,
    ensures
        a.relaid().wf(),
        a.scrolled(delta).wf(),
        a.page_scrolled(sign).wf(),
        a.zoom_toggled().wf(),
        a.dead_closed().wf(),
        a.toggled_alive().wf(),
        a.opened_alive().wf(),
        a.agent_cleared().wf(),
        (App { right: Some(pane), focus: Focus::Right, ..a }).relaid().wf(),
{
}

/// Toggling a running agent never leaves the screen without a pane: the
/// focus ends on a pane that exists and is shown, the agent pane and its
/// process stay, and when the agent is the only pane it ends visible and
/// focused (a visible one is just focused).
pub proof fn law_toggle_keeps_a_pane_shown<H>(a: App<H>)
    requires
        a.agent_alive(),
    ensures
        ({
            let b = a.toggled_alive();
            &&& b.right == a.right
            &&& b.left == a.left
            &&& b.focused_spec() is Some
            &&& b.focus == Focus::Right ==> b.agent_visible_spec()
            &&& b.rects_spec().0 is Some || b.rects_spec().1 is Some
            &&& a.left is None ==> b.agent_visible_spec() && b.focus == Focus::Right
            &&& a.left is None && !a.agent_hidden ==> a.toggled_alive_msg() == "agent pane focused"@
        }),
{
}

} // verus!
