//! Keyboard and mouse event routing, and the encoding of keys as the bytes
//! a terminal sends for them.

use vstd::prelude::*;
use vstd::utf8::encode_utf8;
use crate::app::{App, Focus, Mode, Rect, clamp_int, other_focus};
use crate::config::{
    KeyBind, KeyBindings, KeyCode, KeyEvent, KeyEventKind, KeyMods, Layout, flip, same_key,
    RATIO_MAX, RATIO_MIN,
};
use crate::pane::Pane;
use crate::text::{lower, push_char, ascii_lower};

verus! {

/// xterm modifier parameter: 1 + (shift?1) + (alt?2) + (ctrl?4).
pub open spec fn mod_param(m: KeyMods) -> nat {
    1 + (if m.shift { 1nat } else { 0nat }) + (if m.alt { 2nat } else { 0nat }) + (if m.control {
        4nat
    } else {
        0nat
    })
}

/// The ASCII code of a decimal digit.
pub open spec fn digit_byte(d: nat) -> u8 {
    (d + 48) as u8
}

/// Decimal rendering of `n` as ASCII bytes.
pub open spec fn decimal_bytes(n: nat) -> Seq<u8>
    decreases n,
{
    if n < 10 {
        seq![digit_byte(n)]
    } else {
        decimal_bytes(n / 10).push(digit_byte(n % 10))
    }
}

/// `ESC [ 1 ; <mod> <letter>`: a key with modifiers in xterm's encoding.
pub open spec fn csi_mod1_spec(letter: u8, m: KeyMods) -> Seq<u8> {
    seq![0x1bu8, 0x5bu8, 0x31u8, 0x3bu8, digit_byte(mod_param(m)), letter]
}

/// Cursor keys: `ESC [ <letter>` (`ESC O <letter>` in application cursor
/// mode), or the modifier form.
pub open spec fn csi_key_spec(letter: u8, m: KeyMods, app_cursor: bool) -> Seq<u8> {
    if m.is_empty_spec() {
        if app_cursor {
            seq![0x1bu8, 0x4fu8, letter]
        } else {
            seq![0x1bu8, 0x5bu8, letter]
        }
    } else {
        csi_mod1_spec(letter, m)
    }
}

/// Editing keys: `ESC [ <n> ~`, or `ESC [ <n> ; <mod> ~` with modifiers.
pub open spec fn csi_tilde_spec(n: nat, m: KeyMods) -> Seq<u8> {
    if m.is_empty_spec() {
        seq![0x1bu8, 0x5bu8] + decimal_bytes(n) + seq![0x7eu8]
    } else {
        seq![0x1bu8, 0x5bu8] + decimal_bytes(n) + seq![0x3bu8, digit_byte(mod_param(m)), 0x7eu8]
    }
}

/// The control code that Ctrl plus a character sends, if any.
pub open spec fn ctrl_byte(c: char) -> Option<u8> {
    let l = lower(c);
    if 'a' <= l <= 'z' {
        Some(((l as u32) - 96) as u8)
    } else if l == ' ' || l == '@' || l == '2' {
        Some(0x00u8)
    } else if l == '[' || l == '3' {
        Some(0x1bu8)
    } else if l == '\\' || l == '4' {
        Some(0x1cu8)
    } else if l == ']' || l == '5' {
        Some(0x1du8)
    } else if l == '^' || l == '6' {
        Some(0x1eu8)
    } else if l == '_' || l == '/' || l == '7' {
        Some(0x1fu8)
    } else if l == '?' || l == '8' {
        Some(0x7fu8)
    } else {
        None
    }
}

/// The `~` code of function keys F5 to F12.
pub open spec fn fkey_tilde(n: u8) -> nat {
    if n == 5 {
        15
    } else if n == 6 {
        17
    } else if n == 7 {
        18
    } else if n == 8 {
        19
    } else if n == 9 {
        20
    } else if n == 10 {
        21
    } else if n == 11 {
        23
    } else {
        24
    }
}

/// The bytes a terminal sends for a key event, if it sends any.
pub open spec fn key_bytes(ev: KeyEvent, app_cursor: bool) -> Option<Seq<u8>> {
    let m = ev.modifiers;
    match ev.code {
        KeyCode::Char(c) => {
            let pre = if m.alt {
                seq![0x1bu8]
            } else {
                Seq::<u8>::empty()
            };
            if m.control {
                match ctrl_byte(c) {
                    Some(b) => Some(pre.push(b)),
                    None => None,
                }
            } else {
                Some(pre + encode_utf8(seq![c]))
            }
        },
        KeyCode::Enter => Some(seq![0x0du8]),
        KeyCode::Backspace => Some(seq![0x7fu8]),
        KeyCode::Tab => Some(seq![0x09u8]),
        KeyCode::BackTab => Some(seq![0x1bu8, 0x5bu8, 0x5au8]),
        KeyCode::Esc => Some(seq![0x1bu8]),
        KeyCode::Up => Some(csi_key_spec(0x41, m, app_cursor)),
        KeyCode::Down => Some(csi_key_spec(0x42, m, app_cursor)),
        KeyCode::Right => Some(csi_key_spec(0x43, m, app_cursor)),
        KeyCode::Left => Some(csi_key_spec(0x44, m, app_cursor)),
        KeyCode::Home => Some(csi_key_spec(0x48, m, app_cursor)),
        KeyCode::End => Some(csi_key_spec(0x46, m, app_cursor)),
        KeyCode::PageUp => Some(csi_tilde_spec(5, m)),
        KeyCode::PageDown => Some(csi_tilde_spec(6, m)),
        KeyCode::Delete => Some(csi_tilde_spec(3, m)),
        KeyCode::Insert => Some(csi_tilde_spec(2, m)),
        KeyCode::F(n) => if 1 <= n <= 4 {
            if m.is_empty_spec() {
                Some(seq![0x1bu8, 0x4fu8, (0x50 + n - 1) as u8])
            } else {
                Some(csi_mod1_spec((0x50 + n - 1) as u8, m))
            }
        } else if 5 <= n <= 12 {
            Some(csi_tilde_spec(fkey_tilde(n), m))
        } else {
            None
        },
        KeyCode::Other => None,
    }
}

/// xterm modifier parameter: 1 + (shift?1) + (alt?2) + (ctrl?4).
fn mod_param_exec(m: KeyMods) -> (r: u8)
    ensures
        r as nat == mod_param(m),
        1 <= r <= 8,
{
    1 + (if m.shift { 1u8 } else { 0u8 }) + (if m.alt { 2u8 } else { 0u8 }) + (if m.control {
        4u8
    } else {
        0u8
    })
}

/// Appends the decimal rendering of `n` as ASCII bytes.
fn push_decimal_bytes(v: &mut Vec<u8>, n: u8)
    ensures
        final(v)@ == old(v)@ + decimal_bytes(n as nat),
    decreases n,
{
    if n >= 10 {
        push_decimal_bytes(v, n / 10);
    }
    v.push(n % 10 + 48);
    proof {
        if n < 10 {
            assert(decimal_bytes(n as nat) == seq![digit_byte(n as nat)]);
        } else {
            assert(decimal_bytes(n as nat) == decimal_bytes((n / 10) as nat).push(
                digit_byte((n % 10) as nat),
            ));
        }
    }
}

/// `ESC [ 1 ; <mod> <letter>`.
fn csi_mod1(letter: u8, m: KeyMods) -> (v: Vec<u8>)
    ensures
        v@ == csi_mod1_spec(letter, m),
{
    let p = mod_param_exec(m);
    let v = vec![0x1bu8, 0x5bu8, 0x31u8, 0x3bu8, p + 48, letter];
    assert(v@ =~= csi_mod1_spec(letter, m));
    v
}

/// Cursor-key encoding.
fn csi_key(letter: u8, m: KeyMods, app_cursor: bool) -> (v: Vec<u8>)
    ensures
        v@ == csi_key_spec(letter, m, app_cursor),
{
    if m.is_empty() {
        if app_cursor {
            let v = vec![0x1bu8, 0x4fu8, letter];
            assert(v@ =~= csi_key_spec(letter, m, app_cursor));
            v
        } else {
            let v = vec![0x1bu8, 0x5bu8, letter];
            assert(v@ =~= csi_key_spec(letter, m, app_cursor));
            v
        }
    } else {
        csi_mod1(letter, m)
    }
}

/// Editing-key encoding.
fn csi_tilde(n: u8, m: KeyMods) -> (v: Vec<u8>)
    ensures
        v@ == csi_tilde_spec(n as nat, m),
{
    let mut v = vec![0x1bu8, 0x5bu8];
    push_decimal_bytes(&mut v, n);
    if m.is_empty() {
        v.push(0x7e);
    } else {
        let p = mod_param_exec(m);
        v.push(0x3b);
        v.push(p + 48);
        v.push(0x7e);
    }
    assert(v@ =~= csi_tilde_spec(n as nat, m));
    v
}

/// The UTF-8 encoding of one character.
fn utf8_of(c: char) -> (v: Vec<u8>)
    ensures
        v@ == encode_utf8(seq![c]),
{
    let mut s = String::new();
    push_char(&mut s, c);
    assert(s@ =~= seq![c]);
    vstd::slice::slice_to_vec(s.as_str().as_bytes())
}

/// The control code that Ctrl plus a character sends, if any.
fn ctrl_byte_of(c: char) -> (r: Option<u8>)
    ensures
        r == ctrl_byte(c),
{
    let l = ascii_lower(c);
    if 'a' <= l && l <= 'z' {
        Some(((l as u32) - 96) as u8)
    } else if l == ' ' || l == '@' || l == '2' {
        Some(0x00)
    } else if l == '[' || l == '3' {
        Some(0x1b)
    } else if l == '\\' || l == '4' {
        Some(0x1c)
    } else if l == ']' || l == '5' {
        Some(0x1d)
    } else if l == '^' || l == '6' {
        Some(0x1e)
    } else if l == '_' || l == '/' || l == '7' {
        Some(0x1f)
    } else if l == '?' || l == '8' {
        Some(0x7f)
    } else {
        None
    }
}

/// Encodes a key event as the bytes a terminal would send for it.
/// `app_cursor` selects application cursor key mode (SS3) for arrows,
/// Home and End.
pub fn key_to_bytes(ev: KeyEvent, app_cursor: bool) -> (r: Option<Vec<u8>>)
    ensures
        match r {
            Some(v) => key_bytes(ev, app_cursor) == Some(v@),
            None => key_bytes(ev, app_cursor) is None,
        },
{
    let m = ev.modifiers;
    match ev.code {
        KeyCode::Char(c) => {
            let mut bytes: Vec<u8> = Vec::new();
            if m.alt {
                bytes.push(0x1b);
            }
            if m.control {
                match ctrl_byte_of(c) {
                    Some(b) => {
                        bytes.push(b);
                    },
                    None => {
                        return None;
                    },
                }
            } else {
                let mut u = utf8_of(c);
                bytes.append(&mut u);
            }
            proof {
                let pre = if m.alt {
                    seq![0x1bu8]
                } else {
                    Seq::<u8>::empty()
                };
                if m.control {
                    assert(bytes@ =~= pre.push(ctrl_byte(c).unwrap()));
                } else {
                    assert(bytes@ =~= pre + encode_utf8(seq![c]));
                }
            }
            Some(bytes)
        },
        KeyCode::Enter => Some(vec![0x0du8]),
        KeyCode::Backspace => Some(vec![0x7fu8]),
        KeyCode::Tab => Some(vec![0x09u8]),
        KeyCode::BackTab => Some(vec![0x1bu8, 0x5bu8, 0x5au8]),
        KeyCode::Esc => Some(vec![0x1bu8]),
        KeyCode::Up => Some(csi_key(0x41, m, app_cursor)),
        KeyCode::Down => Some(csi_key(0x42, m, app_cursor)),
        KeyCode::Right => Some(csi_key(0x43, m, app_cursor)),
        KeyCode::Left => Some(csi_key(0x44, m, app_cursor)),
        KeyCode::Home => Some(csi_key(0x48, m, app_cursor)),
        KeyCode::End => Some(csi_key(0x46, m, app_cursor)),
        KeyCode::PageUp => Some(csi_tilde(5, m)),
        KeyCode::PageDown => Some(csi_tilde(6, m)),
        KeyCode::Delete => Some(csi_tilde(3, m)),
        KeyCode::Insert => Some(csi_tilde(2, m)),
        KeyCode::F(n) => {
            if 1 <= n && n <= 4 {
                if m.is_empty() {
                    let v = vec![0x1bu8, 0x4fu8, 0x50 + n - 1];
                    assert(v@ =~= seq![0x1bu8, 0x4fu8, (0x50 + n - 1) as u8]);
                    Some(v)
                } else {
                    Some(csi_mod1(0x50 + n - 1, m))
                }
            } else if n == 5 {
                Some(csi_tilde(15, m))
            } else if n == 6 {
                Some(csi_tilde(17, m))
            } else if n == 7 {
                Some(csi_tilde(18, m))
            } else if n == 8 {
                Some(csi_tilde(19, m))
            } else if n == 9 {
                Some(csi_tilde(20, m))
            } else if n == 10 {
                Some(csi_tilde(21, m))
            } else if n == 11 {
                Some(csi_tilde(23, m))
            } else if n == 12 {
                Some(csi_tilde(24, m))
            } else {
                None
            }
        },
        KeyCode::Other => None,
    }
}


/// How far one ratio key press moves the divider (0.03), in parts per
/// million.
pub const RATIO_STEP: u32 = 30_000;

/// Whether a key event triggers a binding.
pub open spec fn binds(k: KeyBind, ev: KeyEvent) -> bool {
    k.mods == ev.modifiers && same_key(k.code, ev.code)
}

/// The prefix key of the two-key view commands: F9 without modifiers.
pub open spec fn is_prefix_key(ev: KeyEvent) -> bool {
    ev.code == KeyCode::F(9) && ev.modifiers.is_empty_spec()
}

/// After the prefix key, `v` toggles the fullscreen (zoomed) view.
pub open spec fn is_zoom_key(ev: KeyEvent) -> bool {
    ev.code == KeyCode::Char('v') && ev.modifiers.is_empty_spec()
}

/// The ratio after one press of the increase key: 0.03 more, at most 0.9.
pub open spec fn ratio_up(r: u32) -> u32 {
    if r + RATIO_STEP > RATIO_MAX {
        RATIO_MAX
    } else {
        (r + RATIO_STEP) as u32
    }
}

/// The ratio after one press of the decrease key: 0.03 less, at least 0.1.
pub open spec fn ratio_down(r: u32) -> u32 {
    if r - RATIO_STEP < RATIO_MIN {
        RATIO_MIN
    } else {
        (r - RATIO_STEP) as u32
    }
}

/// Whether a key event is taken by the TUI chrome (or ignored) before it
/// could reach the scroll keys or the focused pane.
pub open spec fn chrome_takes<H>(a: App<H>, kb: KeyBindings, ev: KeyEvent) -> bool {
    ||| ev.kind == KeyEventKind::Release
    ||| ev.kind == KeyEventKind::Press && (a.prefix_pending || binds(kb.quit, ev) || binds(
        kb.focus_toggle,
        ev,
    ) || binds(kb.layout_toggle, ev) || binds(kb.ratio_increase, ev) || binds(
        kb.ratio_decrease,
        ev,
    ) || (a.mode == Mode::Normal && binds(kb.scroll_mode, ev)) || binds(kb.toggle_agent, ev)
        || is_prefix_key(ev))
}

/// The state after a key event taken by the TUI chrome.
pub open spec fn chrome_step<H>(a: App<H>, kb: KeyBindings, ev: KeyEvent) -> App<H> {
    if ev.kind == KeyEventKind::Release {
        a
    } else if a.prefix_pending {
        let b = App { prefix_pending: false, ..a };
        if is_zoom_key(ev) {
            b.zoom_toggled()
        } else {
            b
        }
    } else if binds(kb.quit, ev) {
        App { should_quit: true, ..a }
    } else if binds(kb.focus_toggle, ev) {
        App { focus: other_focus(a.focus), ..a }
    } else if binds(kb.layout_toggle, ev) {
        App { layout: flip(a.layout), ..a }.relaid()
    } else if binds(kb.ratio_increase, ev) {
        App { ratio: ratio_up(a.ratio), ..a }.relaid()
    } else if binds(kb.ratio_decrease, ev) {
        App { ratio: ratio_down(a.ratio), ..a }.relaid()
    } else if a.mode == Mode::Normal && binds(kb.scroll_mode, ev) {
        App { mode: Mode::Scroll, ..a }
    } else if binds(kb.toggle_agent, ev) {
        App { toggle_agent_requested: true, ..a }
    } else {
        App { prefix_pending: true, ..a }
    }
}

/// The state with the focused pane (if any) scrolled to `s`.
pub open spec fn set_focused_scroll<H>(a: App<H>, s: usize) -> App<H> {
    match a.focused_spec() {
        Some(p) => a.with_focused(Pane { scroll: s, ..p }),
        None => a,
    }
}

/// Whether a scroll-mode key moves the view by lines or pages.
pub open spec fn scroll_key_moves(ev: KeyEvent) -> bool {
    ev.modifiers.is_empty_spec() && match ev.code {
        KeyCode::Up | KeyCode::Down | KeyCode::PageUp | KeyCode::PageDown => true,
        KeyCode::Char(c) => c == 'k' || c == 'j',
        _ => false,
    }
}

/// The state after a key in scroll mode: Esc/q and End/G leave scroll mode
/// at the bottom, Up/k and Down/j move a line, PageUp/PageDown a page,
/// Home/g jump to the oldest line; keys with modifiers do nothing.
pub open spec fn scroll_step<H>(a: App<H>, ev: KeyEvent) -> App<H> {
    if !ev.modifiers.is_empty_spec() {
        a
    } else {
        match ev.code {
            KeyCode::Esc | KeyCode::End => App { mode: Mode::Normal, ..set_focused_scroll(a, 0) },
            KeyCode::Up => a.scrolled(1),
            KeyCode::Down => a.scrolled(-1),
            KeyCode::PageUp => a.page_scrolled(1),
            KeyCode::PageDown => a.page_scrolled(-1),
            KeyCode::Home => set_focused_scroll(a, a.scrollback_limit),
            KeyCode::Char(c) => if c == 'q' || c == 'G' {
                App { mode: Mode::Normal, ..set_focused_scroll(a, 0) }
            } else if c == 'k' {
                a.scrolled(1)
            } else if c == 'j' {
                a.scrolled(-1)
            } else if c == 'g' {
                set_focused_scroll(a, a.scrollback_limit)
            } else {
                a
            },
            _ => a,
        }
    }
}

/// The state and the bytes for the focused pane after a key event. Chrome
/// bindings act on fresh presses only; in scroll mode the remaining keys
/// scroll; otherwise the key's bytes go to the focused pane, whose view
/// returns to the bottom.
pub open spec fn key_step<H>(a: App<H>, kb: KeyBindings, ev: KeyEvent, app_cursor: bool) -> (
    App<H>,
    Option<Seq<u8>>,
) {
    if chrome_takes(a, kb, ev) {
        (chrome_step(a, kb, ev), None)
    } else if a.mode == Mode::Scroll {
        (scroll_step(a, ev), None)
    } else {
        match (key_bytes(ev, app_cursor), a.focused_spec()) {
            (Some(b), Some(_)) => (set_focused_scroll(a, 0), Some(b)),
            _ => (a, None),
        }
    }
}

fn set_focused_scroll_exec<H>(app: &mut App<H>, s: usize)
    ensures
        *final(app) == set_focused_scroll(*old(app), s),
{
    let slot = match app.focus {
        Focus::Left => &mut app.left,
        Focus::Right => &mut app.right,
    };
    if let Some(p) = slot {
        p.scroll = s;
    }
}

proof fn lemma_page_small<H>(a: App<H>)
    ensures
        a.focused_page() matches Some(p) ==> 0 <= p <= u16::MAX,
{
}

fn page_key<H>(app: &mut App<H>, sign: isize)
    requires
        sign == 1 || sign == -1,
        old(app).scrollback_limit <= isize::MAX,
    ensures
        *final(app) == old(app).page_scrolled(sign as int),
{
    proof {
        lemma_page_small(*app);
    }
    app.scroll_page_focused(sign);
}

fn scroll_key<H>(app: &mut App<H>, ev: KeyEvent)
    requires
        scroll_key_moves(ev) ==> old(app).scrollback_limit <= isize::MAX,
    ensures
        *final(app) == scroll_step(*old(app), ev),
{
    if !ev.modifiers.is_empty() {
        return;
    }
    match ev.code {
        KeyCode::Esc | KeyCode::End => {
            set_focused_scroll_exec(app, 0);
            app.mode = Mode::Normal;
        },
        KeyCode::Up => app.scroll_focused(1),
        KeyCode::Down => app.scroll_focused(-1),
        KeyCode::PageUp => page_key(app, 1),
        KeyCode::PageDown => page_key(app, -1),
        KeyCode::Home => {
            let limit = app.scrollback_limit;
            set_focused_scroll_exec(app, limit);
        },
        KeyCode::Char(c) => {
            if c == 'q' || c == 'G' {
                set_focused_scroll_exec(app, 0);
                app.mode = Mode::Normal;
            } else if c == 'k' {
                app.scroll_focused(1);
            } else if c == 'j' {
                app.scroll_focused(-1);
            } else if c == 'g' {
                let limit = app.scrollback_limit;
                set_focused_scroll_exec(app, limit);
            }
        },
        _ => {},
    }
}

/// Whether a key event moves the focused pane's view in scroll mode, the
/// one case in which `handle_key` clamps a view to the scrollback limit.
pub fn key_scrolls<H>(app: &App<H>, kb: &KeyBindings, ev: KeyEvent) -> (r: bool)
    ensures
        r == (!chrome_takes(*app, *kb, ev) && app.mode == Mode::Scroll && scroll_key_moves(ev)),
{
    let taken = ev.kind == KeyEventKind::Release || (ev.kind == KeyEventKind::Press && (
    app.prefix_pending || kb.quit.matches(&ev) || kb.focus_toggle.matches(&ev)
        || kb.layout_toggle.matches(&ev) || kb.ratio_increase.matches(&ev)
        || kb.ratio_decrease.matches(&ev) || (app.mode == Mode::Normal && kb.scroll_mode.matches(
        &ev,
    )) || kb.toggle_agent.matches(&ev) || (ev.code == KeyCode::F(9) && ev.modifiers.is_empty())));
    let moves = ev.modifiers.is_empty() && match ev.code {
        KeyCode::Up | KeyCode::Down | KeyCode::PageUp | KeyCode::PageDown => true,
        KeyCode::Char(c) => c == 'k' || c == 'j',
        _ => false,
    };
    !taken && app.mode == Mode::Scroll && moves
}

/// Handles a key event. Returns the bytes to write to the focused pane's
/// process, if any (its view has then been returned to the bottom).
/// `app_cursor` says whether the focused pane's terminal is in application
/// cursor mode.
pub fn handle_key<H>(app: &mut App<H>, kb: &KeyBindings, ev: KeyEvent, app_cursor: bool) -> (r:
    Option<Vec<u8>>)
    requires
        !chrome_takes(*old(app), *kb, ev) && old(app).mode == Mode::Scroll && scroll_key_moves(ev)
            ==> old(app).scrollback_limit <= isize::MAX,
    ensures
        ({
            let (a2, out) = key_step(*old(app), *kb, ev, app_cursor);
            &&& *final(app) == a2
            &&& match r {
                Some(v) => out == Some(v@),
                None => out is None,
            }
        }),
{
    if ev.kind == KeyEventKind::Release {
        return None;
    }
    if ev.kind == KeyEventKind::Press {
        if app.prefix_pending {
            app.prefix_pending = false;
            if ev.code == KeyCode::Char('v') && ev.modifiers.is_empty() {
                app.toggle_zoom();
            }
            return None;
        }
        if kb.quit.matches(&ev) {
            app.should_quit = true;
            return None;
        }
        if kb.focus_toggle.matches(&ev) {
            app.focus = app.focus.other();
            return None;
        }
        if kb.layout_toggle.matches(&ev) {
            app.layout = app.layout.flipped();
            app.relayout();
            return None;
        }
        if kb.ratio_increase.matches(&ev) {
            app.ratio = if app.ratio >= RATIO_MAX - RATIO_STEP {
                RATIO_MAX
            } else {
                app.ratio + RATIO_STEP
            };
            app.relayout();
            return None;
        }
        if kb.ratio_decrease.matches(&ev) {
            app.ratio = if app.ratio < RATIO_MIN + RATIO_STEP {
                RATIO_MIN
            } else {
                app.ratio - RATIO_STEP
            };
            app.relayout();
            return None;
        }
        if app.mode == Mode::Normal && kb.scroll_mode.matches(&ev) {
            app.mode = Mode::Scroll;
            return None;
        }
        if kb.toggle_agent.matches(&ev) {
            app.toggle_agent_requested = true;
            return None;
        }
        if ev.code == KeyCode::F(9) && ev.modifiers.is_empty() {
            app.prefix_pending = true;
            return None;
        }
    }
    match app.mode {
        Mode::Scroll => {
            scroll_key(app, ev);
            None
        },
        Mode::Normal => {
            let has_focused = match app.focus {
                Focus::Left => app.left.is_some(),
                Focus::Right => app.right.is_some(),
            };
            if !has_focused {
                return None;
            }
            match key_to_bytes(ev, app_cursor) {
                Some(bytes) => {
                    set_focused_scroll_exec(app, 0);
                    Some(bytes)
                },
                None => None,
            }
        },
    }
}


/// A mouse button.
#[derive(Debug, Clone, Copy, PartialEq, Eq, Structural)]
pub enum MouseButton {
    Left,
    Right,
    Middle,
}

/// What happened with the mouse.
#[derive(Debug, Clone, Copy, PartialEq, Eq, Structural)]
pub enum MouseEventKind {
    Down(MouseButton),
    Up(MouseButton),
    Drag(MouseButton),
    Moved,
    ScrollDown,
    ScrollUp,
    ScrollLeft,
    ScrollRight,
}

/// A mouse event at a cell (column, row) of the terminal.
#[derive(Debug, Clone, Copy, PartialEq, Eq, Structural)]
pub struct MouseEvent {
    pub kind: MouseEventKind,
    pub column: u16,
    pub row: u16,
    pub modifiers: KeyMods,
}

/// Whether a cell lies on the divider: the two adjacent border columns
/// (rows, for a vertical split) between the panes. Only when both panes
/// have a rect.
pub open spec fn on_divider_spec<H>(a: App<H>, x: u16, y: u16) -> bool {
    let (la, ra) = a.rects_spec();
    la is Some && ra is Some && {
        let l = la.unwrap();
        match a.layout {
            Layout::Horizontal => x == crate::app::sat_sub(l.right_spec(), 1) || x == l.right_spec(),
            Layout::Vertical => y == crate::app::sat_sub(l.bottom_spec(), 1) || y == l.bottom_spec(),
        }
    }
}

/// `v` clamped to the ratio range 0.1..=0.9 (parts per million).
pub open spec fn clamp_ratio_nat(v: nat) -> u32 {
    if v < RATIO_MIN {
        RATIO_MIN
    } else if v > RATIO_MAX {
        RATIO_MAX
    } else {
        v as u32
    }
}

/// The ratio that puts the divider at cell `pos` of `total` cells:
/// `pos / total` (in parts per million, rounded down), kept within
/// 0.1..=0.9.
pub open spec fn drag_ratio(pos: u16, total: u16) -> u32 {
    let t: nat = if total >= 1 {
        total as nat
    } else {
        1
    };
    clamp_ratio_nat((pos as nat) * 1_000_000 / t)
}

/// The state after the mouse wheel scrolled by `delta` lines over the cell
/// (x, y): the pane under the pointer scrolls (within 0 and the scrollback
/// limit); the mode does not change.
pub open spec fn wheel_step<H>(a: App<H>, x: u16, y: u16, delta: int) -> App<H> {
    let (la, ra) = a.rects_spec();
    if la matches Some(r) && r.contains_spec(x, y) && a.left is Some {
        let p = a.left.unwrap();
        App {
            left: Some(
                Pane { scroll: clamp_int(p.scroll + delta, 0, a.scrollback_limit as int) as usize, ..p },
            ),
            ..a
        }
    } else if la matches Some(r) && r.contains_spec(x, y) {
        a
    } else if ra matches Some(r) && r.contains_spec(x, y) && a.right is Some {
        let p = a.right.unwrap();
        App {
            right: Some(
                Pane { scroll: clamp_int(p.scroll + delta, 0, a.scrollback_limit as int) as usize, ..p },
            ),
            ..a
        }
    } else {
        a
    }
}

/// The state after a mouse event: a left click on the divider starts a
/// drag, elsewhere it focuses the pane under the pointer; dragging moves
/// the divider; releasing ends the drag; the wheel scrolls the pane under
/// the pointer by 3 lines.
pub open spec fn mouse_step<H>(a: App<H>, ev: MouseEvent) -> App<H> {
    let (la, ra) = a.rects_spec();
    match ev.kind {
        MouseEventKind::Down(MouseButton::Left) => if on_divider_spec(a, ev.column, ev.row) {
            App { dragging: true, ..a }
        } else if la matches Some(r) && r.contains_spec(ev.column, ev.row) {
            App { focus: Focus::Left, ..a }
        } else if ra matches Some(r) && r.contains_spec(ev.column, ev.row) {
            App { focus: Focus::Right, ..a }
        } else {
            a
        },
        MouseEventKind::Drag(MouseButton::Left) => if a.dragging {
            let ratio = match a.layout {
                Layout::Horizontal => drag_ratio(ev.column, a.term_size.0),
                Layout::Vertical => drag_ratio(ev.row, a.term_size.1),
            };
            App { ratio, ..a }.relaid()
        } else {
            a
        },
        MouseEventKind::Up(MouseButton::Left) => App { dragging: false, ..a },
        MouseEventKind::ScrollUp => wheel_step(a, ev.column, ev.row, 3),
        MouseEventKind::ScrollDown => wheel_step(a, ev.column, ev.row, -3),
        _ => a,
    }
}

/// Whether a cell lies on the divider between the panes.
fn on_divider<H>(app: &App<H>, x: u16, y: u16) -> (r: bool)
    ensures
        r == on_divider_spec(*app, x, y),
{
    let (la, ra) = app.rects();
    match (la, ra) {
        (Some(l), Some(_)) => match app.layout {
            Layout::Horizontal => x == l.right().saturating_sub(1) || x == l.right(),
            Layout::Vertical => y == l.bottom().saturating_sub(1) || y == l.bottom(),
        },
        _ => false,
    }
}

/// `pos / total` in parts per million, kept within 0.1..=0.9.
fn drag_ratio_exec(pos: u16, total: u16) -> (r: u32)
    ensures
        r == drag_ratio(pos, total),
{
    let t: u64 = if total >= 1 {
        total as u64
    } else {
        1
    };
    let v = (pos as u64) * 1_000_000 / t;
    if v < RATIO_MIN as u64 {
        RATIO_MIN
    } else if v > RATIO_MAX as u64 {
        RATIO_MAX
    } else {
        v as u32
    }
}

/// `scroll + delta` within 0 and `limit`.
fn clamp_scroll(scroll: usize, delta: isize, limit: usize) -> (r: usize)
    ensures
        r as int == clamp_int(scroll + delta, 0, limit as int),
{
    let v = scroll as i128 + delta as i128;
    if v < 0 {
        0
    } else if v > limit as i128 {
        limit
    } else {
        v as usize
    }
}

/// Scrolls the pane under the pointer.
fn wheel_scroll<H>(app: &mut App<H>, x: u16, y: u16, delta: isize)
    requires
        old(app).scrollback_limit <= isize::MAX,
    ensures
        *final(app) == wheel_step(*old(app), x, y, delta as int),
{
    let (la, ra) = app.rects();
    let limit = app.scrollback_limit;
    let in_left = match la {
        Some(r) => r.contains(x, y),
        None => false,
    };
    let in_right = match ra {
        Some(r) => r.contains(x, y),
        None => false,
    };
    if in_left {
        if let Some(p) = &mut app.left {
            p.scroll = clamp_scroll(p.scroll, delta, limit);
        }
    } else if in_right {
        if let Some(p) = &mut app.right {
            p.scroll = clamp_scroll(p.scroll, delta, limit);
        }
    }
}

/// Handles a mouse event.
pub fn handle_mouse<H>(app: &mut App<H>, ev: MouseEvent)
    requires
        (ev.kind == MouseEventKind::ScrollUp || ev.kind == MouseEventKind::ScrollDown)
            ==> old(app).scrollback_limit <= isize::MAX,
    ensures
        *final(app) == mouse_step(*old(app), ev),
{
    let (la, ra) = app.rects();
    match ev.kind {
        MouseEventKind::Down(MouseButton::Left) => {
            if on_divider(app, ev.column, ev.row) {
                app.dragging = true;
            } else if match la {
                Some(r) => r.contains(ev.column, ev.row),
                None => false,
            } {
                app.focus = Focus::Left;
            } else if match ra {
                Some(r) => r.contains(ev.column, ev.row),
                None => false,
            } {
                app.focus = Focus::Right;
            }
        },
        MouseEventKind::Drag(MouseButton::Left) => {
            if app.dragging {
                let (w, h) = app.term_size;
                let ratio = match app.layout {
                    Layout::Horizontal => drag_ratio_exec(ev.column, w),
                    Layout::Vertical => drag_ratio_exec(ev.row, h),
                };
                app.ratio = ratio;
                app.relayout();
            }
        },
        MouseEventKind::Up(MouseButton::Left) => app.dragging = false,
        MouseEventKind::ScrollUp => wheel_scroll(app, ev.column, ev.row, 3),
        MouseEventKind::ScrollDown => wheel_scroll(app, ev.column, ev.row, -3),
        _ => {},
    }
}


proof fn lemma_wf_set_focused_scroll<H>(a: App<H>, v: usize)
    requires
        a.wf(),
        v <= a.scrollback_limit,
    ensures
        set_focused_scroll(a, v).wf(),
{
}

proof fn lemma_wf_chrome<H>(a: App<H>, kb: KeyBindings, ev: KeyEvent)
    requires
        a.wf(),
    ensures
        chrome_step(a, kb, ev).wf(),
{
    let p = Pane { scroll: 0, ..a.left.unwrap() };
    crate::app::law_wf_kept(App { prefix_pending: false, ..a }, 1, 1, p);
    crate::app::law_wf_kept(App { layout: flip(a.layout), ..a }, 1, 1, p);
    crate::app::law_wf_kept(App { ratio: ratio_up(a.ratio), ..a }, 1, 1, p);
    crate::app::law_wf_kept(App { ratio: ratio_down(a.ratio), ..a }, 1, 1, p);
}

proof fn lemma_wf_scroll<H>(a: App<H>, ev: KeyEvent)
    requires
        a.wf(),
    ensures
        scroll_step(a, ev).wf(),
{
    let p = Pane { scroll: 0, ..a.left.unwrap() };
    crate::app::law_wf_kept(a, 1, 1, p);
    crate::app::law_wf_kept(a, -1, -1, p);
    lemma_wf_set_focused_scroll(a, 0);
    lemma_wf_set_focused_scroll(a, a.scrollback_limit);
}

/// Key events keep the ratio in 0.1..=0.9 and each pane's view within the
/// scrollback.
pub proof fn law_wf_key<H>(a: App<H>, kb: KeyBindings, ev: KeyEvent, app_cursor: bool)
    requires
        a.wf(),
    ensures
        key_step(a, kb, ev, app_cursor).0.wf(),
{
    lemma_wf_chrome(a, kb, ev);
    lemma_wf_scroll(a, ev);
    lemma_wf_set_focused_scroll(a, 0);
}

/// Mouse events keep the ratio in 0.1..=0.9 and each pane's view within
/// the scrollback.
pub proof fn law_wf_mouse<H>(a: App<H>, m: MouseEvent)
    requires
        a.wf(),
    ensures
        mouse_step(a, m).wf(),
{
    let p = Pane { scroll: 0, ..a.left.unwrap() };
    let r = match a.layout {
        Layout::Horizontal => drag_ratio(m.column, a.term_size.0),
        Layout::Vertical => drag_ratio(m.row, a.term_size.1),
    };
    crate::app::law_wf_kept(App { ratio: r, ..a }, 1, 1, p);
}

/// The mouse wheel scrolls only the pane under the pointer, and never
/// changes the focus, the mode or the layout.
pub proof fn law_wheel_scrolls_pointed_pane<H>(a: App<H>, x: u16, y: u16, delta: int)
    ensures
        ({
            let b = wheel_step(a, x, y, delta);
            let (la, ra) = a.rects_spec();
            &&& b.focus == a.focus && b.mode == a.mode && b.layout == a.layout && b.ratio == a.ratio
            &&& !(la matches Some(r) && r.contains_spec(x, y)) ==> b.left == a.left
            &&& (la matches Some(r) && r.contains_spec(x, y)) || !(ra matches Some(r)
                && r.contains_spec(x, y)) ==> b.right == a.right
        }),
{
}

/// A key event that a chrome binding takes never reaches the focused pane,
/// and keys are forwarded only in normal mode, as the bytes the terminal
/// would send for them, with the view back at the bottom.
pub proof fn law_key_routing<H>(a: App<H>, kb: KeyBindings, ev: KeyEvent, app_cursor: bool)
    ensures
        ({
            let (b, out) = key_step(a, kb, ev, app_cursor);
            &&& chrome_takes(a, kb, ev) ==> out is None
            &&& a.mode == Mode::Scroll ==> out is None
            &&& out is Some ==> out == key_bytes(ev, app_cursor) && (b.focused_spec() matches Some(p)
                && p.scroll == 0)
        }),
{
}

/// The final byte of a cursor key's sequence names the key, as xterm sends
/// it: Up `A`, Down `B`, Right `C`, Left `D`, End `F`, Home `H`; every such
/// sequence starts with ESC; without modifiers it is `ESC [ <letter>` (`ESC
/// O <letter>` in application cursor mode); and two different cursor keys
/// with the same modifiers never send the same bytes.
pub proof fn law_cursor_keys(ev: KeyEvent, ev2: KeyEvent, app_cursor: bool)
    ensures
        ({
            let letter: int = match ev.code {
                KeyCode::Up => 0x41,
                KeyCode::Down => 0x42,
                KeyCode::Right => 0x43,
                KeyCode::Left => 0x44,
                KeyCode::End => 0x46,
                KeyCode::Home => 0x48,
                _ => -1,
            };
            letter >= 0 ==> (key_bytes(ev, app_cursor) matches Some(v) && v.len() >= 3 && v[0] == 0x1bu8
                && v.last() == letter)
        }),
        ev.modifiers.is_empty_spec() && ev.code == KeyCode::Right ==> key_bytes(ev, app_cursor)
            == Some(seq![0x1bu8, if app_cursor { 0x4fu8 } else { 0x5bu8 }, 0x43u8]),
        ev.modifiers.is_empty_spec() && ev.code == KeyCode::Left ==> key_bytes(ev, app_cursor)
            == Some(seq![0x1bu8, if app_cursor { 0x4fu8 } else { 0x5bu8 }, 0x44u8]),
        ev.modifiers.is_empty_spec() && ev.code == KeyCode::Up ==> key_bytes(ev, app_cursor)
            == Some(seq![0x1bu8, if app_cursor { 0x4fu8 } else { 0x5bu8 }, 0x41u8]),
        ev.modifiers.is_empty_spec() && ev.code == KeyCode::Down ==> key_bytes(ev, app_cursor)
            == Some(seq![0x1bu8, if app_cursor { 0x4fu8 } else { 0x5bu8 }, 0x42u8]),
        ({
            let cursor = |c: KeyCode|
                c == KeyCode::Up || c == KeyCode::Down || c == KeyCode::Right || c == KeyCode::Left
                    || c == KeyCode::Home || c == KeyCode::End;
            cursor(ev.code) && cursor(ev2.code) && ev.code != ev2.code && ev.modifiers
                == ev2.modifiers ==> key_bytes(ev, app_cursor) != key_bytes(ev2, app_cursor)
        }),
{
    let m = ev.modifiers;
    if !m.is_empty_spec() {
        assert(csi_mod1_spec(0x41, m).last() == 0x41u8);
    }
    let cursor = |c: KeyCode|
        c == KeyCode::Up || c == KeyCode::Down || c == KeyCode::Right || c == KeyCode::Left
            || c == KeyCode::Home || c == KeyCode::End;
    if cursor(ev.code) && cursor(ev2.code) && ev.code != ev2.code && ev.modifiers == ev2.modifiers {
        let v1 = key_bytes(ev, app_cursor).unwrap();
        let v2 = key_bytes(ev2, app_cursor).unwrap();
        assert(v1.last() != v2.last());
    }
}

/// In scroll mode, a key that reaches the scroll keys moves the focused
/// pane's view: Down and `j` one line toward the live view (stopping at
/// it), Up and `k` one line back into the history (stopping at the
/// scrollback limit); no bytes reach the pane.
pub proof fn law_scroll_key_direction<H>(a: App<H>, kb: KeyBindings, ev: KeyEvent, app_cursor: bool)
    requires
        a.mode == Mode::Scroll,
        !chrome_takes(a, kb, ev),
        ev.modifiers.is_empty_spec(),
        a.focused_spec() is Some,
        a.focused_spec().unwrap().scroll <= a.scrollback_limit,
    ensures
        ({
            let (b, out) = key_step(a, kb, ev, app_cursor);
            let before = a.focused_spec().unwrap().scroll as int;
            &&& out is None
            &&& b.focused_spec() is Some
            &&& (ev.code == KeyCode::Down || ev.code == KeyCode::Char('j')) ==> b.focused_spec().unwrap().scroll
                == if before > 0 {
                before - 1
            } else {
                0
            }
            &&& (ev.code == KeyCode::Up || ev.code == KeyCode::Char('k')) ==> b.focused_spec().unwrap().scroll
                == if before < a.scrollback_limit {
                before + 1
            } else {
                before
            }
        }),
{
}

/// While the divider is dragged, it follows the pointer along the split
/// only: in a top/bottom layout the new ratio depends on the pointer's row
/// alone, in a left/right layout on its column alone; the ratio is the
/// pointer's position as a fraction of the screen (in parts per million,
/// rounded down), kept within 0.1..=0.9.
pub proof fn law_drag_follows_pointer<H>(a: App<H>, ev: MouseEvent, ev2: MouseEvent)
    requires
        a.dragging,
        ev.kind == MouseEventKind::Drag(MouseButton::Left),
        ev2.kind == MouseEventKind::Drag(MouseButton::Left),
    ensures
        a.layout == Layout::Vertical && ev.row == ev2.row ==> mouse_step(a, ev) == mouse_step(a, ev2),
        a.layout == Layout::Horizontal && ev.column == ev2.column ==> mouse_step(a, ev) == mouse_step(
            a,
            ev2,
        ),
        ({
            let r = mouse_step(a, ev).ratio as int;
            let (pos, total) = match a.layout {
                Layout::Vertical => (ev.row as int, a.term_size.1 as int),
                Layout::Horizontal => (ev.column as int, a.term_size.0 as int),
            };
            &&& RATIO_MIN <= r <= RATIO_MAX
            &&& total >= 1 ==> (r == RATIO_MIN || r == RATIO_MAX || (r * total <= pos * 1_000_000 < (r
                + 1) * total))
            &&& total >= 1 && RATIO_MIN * total <= pos * 1_000_000 < (RATIO_MAX + 1) * total ==> r
                * total <= pos * 1_000_000 < (r + 1) * total
        }),
{
    let (pos, total) = match a.layout {
        Layout::Vertical => (ev.row, a.term_size.1),
        Layout::Horizontal => (ev.column, a.term_size.0),
    };
    if total >= 1 {
        let t = total as int;
        let q = (pos as nat) * 1_000_000 / (total as nat);
        assert(q * t <= pos * 1_000_000 < (q + 1) * t) by (nonlinear_arith)
            requires
                t >= 1,
                q == (pos as nat) * 1_000_000 / (t as nat),
        ;
        let r = mouse_step(a, ev).ratio as int;
        assert(r == clamp_ratio_nat(q));
        if RATIO_MIN * t <= pos * 1_000_000 < (RATIO_MAX + 1) * t {
            assert(RATIO_MIN <= q <= RATIO_MAX) by (nonlinear_arith)
                requires
                    q * t <= pos * 1_000_000 < (q + 1) * t,
                    RATIO_MIN * t <= pos * 1_000_000 < (RATIO_MAX + 1) * t,
                    t >= 1,
            ;
        }
    }
}

/// The bytes of the other keys, as a terminal sends them: without
/// modifiers Enter is CR, Backspace DEL, Tab HT, Esc ESC, Shift+Tab
/// `ESC [ Z`, Insert/Delete/PageUp/PageDown `ESC [ 2/3/5/6 ~`, F1 to F4
/// `ESC O P..S`, F5 to F12 `ESC [ 15/17/18/19/20/21/23/24 ~`, and an ASCII character its own byte; Alt puts ESC before
/// a character's bytes; Ctrl with a letter sends the letter's control code
/// (`a` and `A` give 1, `z` 26).
pub proof fn law_key_bytes_table(ev: KeyEvent, app_cursor: bool)
    ensures
        ev.modifiers.is_empty_spec() ==> {
            &&& ev.code == KeyCode::Enter ==> key_bytes(ev, app_cursor) == Some(seq![0x0du8])
            &&& ev.code == KeyCode::Backspace ==> key_bytes(ev, app_cursor) == Some(seq![0x7fu8])
            &&& ev.code == KeyCode::Tab ==> key_bytes(ev, app_cursor) == Some(seq![0x09u8])
            &&& ev.code == KeyCode::Esc ==> key_bytes(ev, app_cursor) == Some(seq![0x1bu8])
            &&& ev.code == KeyCode::BackTab ==> key_bytes(ev, app_cursor) == Some(
                seq![0x1bu8, 0x5bu8, 0x5au8],
            )
            &&& ev.code == KeyCode::Insert ==> key_bytes(ev, app_cursor) == Some(
                seq![0x1bu8, 0x5bu8, 0x32u8, 0x7eu8],
            )
            &&& ev.code == KeyCode::Delete ==> key_bytes(ev, app_cursor) == Some(
                seq![0x1bu8, 0x5bu8, 0x33u8, 0x7eu8],
            )
            &&& ev.code == KeyCode::PageUp ==> key_bytes(ev, app_cursor) == Some(
                seq![0x1bu8, 0x5bu8, 0x35u8, 0x7eu8],
            )
            &&& ev.code == KeyCode::PageDown ==> key_bytes(ev, app_cursor) == Some(
                seq![0x1bu8, 0x5bu8, 0x36u8, 0x7eu8],
            )
            &&& ev.code == KeyCode::F(1) ==> key_bytes(ev, app_cursor) == Some(seq![0x1bu8, 0x4fu8, 0x50u8])
            &&& ev.code == KeyCode::F(2) ==> key_bytes(ev, app_cursor) == Some(seq![0x1bu8, 0x4fu8, 0x51u8])
            &&& ev.code == KeyCode::F(3) ==> key_bytes(ev, app_cursor) == Some(seq![0x1bu8, 0x4fu8, 0x52u8])
            &&& ev.code == KeyCode::F(4) ==> key_bytes(ev, app_cursor) == Some(seq![0x1bu8, 0x4fu8, 0x53u8])
            &&& ev.code == KeyCode::F(5) ==> key_bytes(ev, app_cursor) == Some(
                seq![0x1bu8, 0x5bu8, 0x31u8, 0x35u8, 0x7eu8],
            )
            &&& ev.code == KeyCode::F(6) ==> key_bytes(ev, app_cursor) == Some(
                seq![0x1bu8, 0x5bu8, 0x31u8, 0x37u8, 0x7eu8],
            )
            &&& ev.code == KeyCode::F(7) ==> key_bytes(ev, app_cursor) == Some(
                seq![0x1bu8, 0x5bu8, 0x31u8, 0x38u8, 0x7eu8],
            )
            &&& ev.code == KeyCode::F(8) ==> key_bytes(ev, app_cursor) == Some(
                seq![0x1bu8, 0x5bu8, 0x31u8, 0x39u8, 0x7eu8],
            )
            &&& ev.code == KeyCode::F(9) ==> key_bytes(ev, app_cursor) == Some(
                seq![0x1bu8, 0x5bu8, 0x32u8, 0x30u8, 0x7eu8],
            )
            &&& ev.code == KeyCode::F(10) ==> key_bytes(ev, app_cursor) == Some(
                seq![0x1bu8, 0x5bu8, 0x32u8, 0x31u8, 0x7eu8],
            )
            &&& ev.code == KeyCode::F(11) ==> key_bytes(ev, app_cursor) == Some(
                seq![0x1bu8, 0x5bu8, 0x32u8, 0x33u8, 0x7eu8],
            )
            &&& ev.code == KeyCode::F(12) ==> key_bytes(ev, app_cursor) == Some(
                seq![0x1bu8, 0x5bu8, 0x32u8, 0x34u8, 0x7eu8],
            )
        },
        match ev.code {
            KeyCode::Char(c) => {
                &&& (c as u32) < 0x80 && !ev.modifiers.control ==> key_bytes(ev, app_cursor) == Some(
                    if ev.modifiers.alt {
                        seq![0x1bu8, c as u8]
                    } else {
                        seq![c as u8]
                    },
                )
                &&& ('a' <= c <= 'z' || 'A' <= c <= 'Z') && ev.modifiers.control && !ev.modifiers.alt
                    ==> key_bytes(ev, app_cursor) == Some(
                    seq![(if c <= 'Z' { c as u32 - 0x40 } else { c as u32 - 0x60 }) as u8],
                )
            },
            _ => true,
        },
{
    if ev.code is F {
        assert(decimal_bytes(23) =~= seq![0x32u8, 0x33u8]) by {
            assert(decimal_bytes(2) == seq![digit_byte(2)]);
        }
        assert(decimal_bytes(15) =~= seq![0x31u8, 0x35u8]) by {
            assert(decimal_bytes(1) == seq![digit_byte(1)]);
        }
        assert(decimal_bytes(21) =~= seq![0x32u8, 0x31u8]) by {
            assert(decimal_bytes(2) == seq![digit_byte(2)]);
        }
        assert(decimal_bytes(24) =~= seq![0x32u8, 0x34u8]) by {
            assert(decimal_bytes(2) == seq![digit_byte(2)]);
        }
        assert(decimal_bytes(17) =~= seq![0x31u8, 0x37u8]) by {
            assert(decimal_bytes(1) == seq![digit_byte(1)]);
        }
        assert(decimal_bytes(19) =~= seq![0x31u8, 0x39u8]) by {
            assert(decimal_bytes(1) == seq![digit_byte(1)]);
        }
        assert(decimal_bytes(18) =~= seq![0x31u8, 0x38u8]) by {
            assert(decimal_bytes(1) == seq![digit_byte(1)]);
        }
        assert(decimal_bytes(20) =~= seq![0x32u8, 0x30u8]) by {
            assert(decimal_bytes(2) == seq![digit_byte(2)]);
        }
    }
    if let KeyCode::Char(c) = ev.code {
        let u = c as u32;
        if u < 0x80 {
            assert(u & 0x7f == u) by (bit_vector)
                requires
                    u < 0x80,
            ;
            assert(encode_utf8(seq![c]) =~= seq![c as u8]) by {
                assert(seq![c].drop_first() =~= Seq::<char>::empty());
                assert(encode_utf8(seq![c].drop_first()) =~= Seq::<u8>::empty());
            }
        }
    }
}

/// The other scroll-mode keys: PageUp moves the view a page back into the
/// history and PageDown a page toward the live view (stopping at either
/// end); Home and `g` jump to the oldest line; End, `G`, Esc and `q` return
/// to the live view and leave scroll mode.
pub proof fn law_scroll_key_jumps<H>(a: App<H>, kb: KeyBindings, ev: KeyEvent, app_cursor: bool)
    requires
        a.mode == Mode::Scroll,
        !chrome_takes(a, kb, ev),
        ev.modifiers.is_empty_spec(),
        a.focused_spec() is Some,
        a.focused_spec().unwrap().scroll <= a.scrollback_limit,
    ensures
        ({
            let b = key_step(a, kb, ev, app_cursor).0;
            let before = a.focused_spec().unwrap().scroll as int;
            &&& b.focused_spec() is Some
            &&& ev.code == KeyCode::PageUp ==> before <= b.focused_spec().unwrap().scroll <= a.scrollback_limit
                && (a.focused_page() matches Some(pg) && pg >= 1 && before < a.scrollback_limit ==> before
                < b.focused_spec().unwrap().scroll)
            &&& ev.code == KeyCode::PageDown ==> b.focused_spec().unwrap().scroll <= before && (
            a.focused_page() matches Some(pg) && pg >= 1 && before > 0 ==> b.focused_spec().unwrap().scroll
                < before)
            &&& (ev.code == KeyCode::Home || ev.code == KeyCode::Char('g'))
                ==> b.focused_spec().unwrap().scroll == a.scrollback_limit && b.mode == Mode::Scroll
            &&& (ev.code == KeyCode::End || ev.code == KeyCode::Char('G') || ev.code == KeyCode::Esc
                || ev.code == KeyCode::Char('q')) ==> b.focused_spec().unwrap().scroll == 0 && b.mode
                == Mode::Normal
        }),
{
}

/// A left click off the divider focuses the pane under the pointer and
/// changes nothing else; the wheel moves the view of the pane under the
/// pointer three lines back into the history (up) or toward the live view
/// (down), stopping at either end, and leaves the focus and the mode alone.
pub proof fn law_click_and_wheel<H>(a: App<H>, ev: MouseEvent)
    ensures
        ({
            let b = mouse_step(a, ev);
            let (la, ra) = a.rects_spec();
            let x = ev.column;
            let y = ev.row;
            let in_left = la matches Some(r) && r.contains_spec(x, y);
            let in_right = ra matches Some(r) && r.contains_spec(x, y);
            &&& ev.kind == MouseEventKind::Down(MouseButton::Left) && !on_divider_spec(a, x, y) && in_left
                ==> b == (App { focus: Focus::Left, ..a })
            &&& ev.kind == MouseEventKind::Down(MouseButton::Left) && !on_divider_spec(a, x, y) && !in_left
                && in_right ==> b == (App { focus: Focus::Right, ..a })
            &&& (ev.kind == MouseEventKind::ScrollUp || ev.kind == MouseEventKind::ScrollDown) ==> b.focus
                == a.focus && b.mode == a.mode
            &&& ev.kind == MouseEventKind::ScrollUp && in_left && a.left is Some && a.left.unwrap().scroll
                <= a.scrollback_limit ==> b.left is Some && b.left.unwrap().scroll == if a.left.unwrap().scroll
                + 3 <= a.scrollback_limit {
                a.left.unwrap().scroll + 3
            } else {
                a.scrollback_limit as int
            }
            &&& ev.kind == MouseEventKind::ScrollDown && in_left && a.left is Some && a.left.unwrap().scroll
                <= a.scrollback_limit ==> b.left is Some
                && b.left.unwrap().scroll == if a.left.unwrap().scroll >= 3 {
                a.left.unwrap().scroll - 3
            } else {
                0
            }
            &&& ev.kind == MouseEventKind::ScrollUp && !in_left && in_right && a.right is Some
                && a.right.unwrap().scroll <= a.scrollback_limit ==> b.right is Some
                && b.right.unwrap().scroll == if a.right.unwrap().scroll + 3 <= a.scrollback_limit {
                a.right.unwrap().scroll + 3
            } else {
                a.scrollback_limit as int
            }
            &&& ev.kind == MouseEventKind::ScrollDown && !in_left && in_right && a.right is Some
                && a.right.unwrap().scroll <= a.scrollback_limit ==> b.right is Some && b.right.unwrap().scroll == if a.right.unwrap().scroll >= 3 {
                a.right.unwrap().scroll - 3
            } else {
                0
            }
        }),
{
}

/// The chrome bindings do what they are named for, each taking precedence
/// over those after it (quit, focus, layout, ratio up, ratio down): quit
/// sets the quit flag, the focus toggle moves the focus to the other pane,
/// the layout toggle switches between left/right and top/bottom, and the
/// ratio keys move the divider by 0.03 toward the right/bottom or the
/// left/top, stopping at 0.9 and 0.1; none sends bytes to a pane.
pub proof fn law_chrome_keys<H>(a: App<H>, kb: KeyBindings, ev: KeyEvent, app_cursor: bool)
    requires
        ev.kind == KeyEventKind::Press,
        !a.prefix_pending,
        RATIO_MIN <= a.ratio <= RATIO_MAX,
    ensures
        ({
            let (b, out) = key_step(a, kb, ev, app_cursor);
            let q = binds(kb.quit, ev);
            let f = binds(kb.focus_toggle, ev);
            let l = binds(kb.layout_toggle, ev);
            let up = binds(kb.ratio_increase, ev);
            let down = binds(kb.ratio_decrease, ev);
            &&& (q || f || l || up || down) ==> out is None
            &&& q ==> b.should_quit
            &&& !q && f ==> b.focus != a.focus && b.focus == other_focus(a.focus) && b.ratio == a.ratio
            &&& !q && !f && l ==> b.layout != a.layout && b.ratio == a.ratio
            &&& !q && !f && !l && up ==> b.ratio == (if a.ratio + 30_000 <= RATIO_MAX {
                a.ratio + 30_000
            } else {
                RATIO_MAX as int
            }) && b.ratio >= a.ratio
            &&& !q && !f && !l && !up && down ==> b.ratio == (if a.ratio - 30_000 >= RATIO_MIN {
                a.ratio - 30_000
            } else {
                RATIO_MIN as int
            }) && b.ratio <= a.ratio
        }),
{
}

/// A binding fires on exactly its modifiers and its key, a letter in
/// either case: Ctrl+g fires on Ctrl+g and Ctrl+G but not on Ctrl+h,
/// Ctrl+Alt+g or g alone.
pub proof fn law_binding_fires(k: KeyBind, ev: KeyEvent)
    ensures
        binds(k, ev) ==> k.mods == ev.modifiers,
        k.mods == ev.modifiers && k.code == ev.code ==> binds(k, ev),
        match (k.code, ev.code) {
            (KeyCode::Char(c), KeyCode::Char(d)) => k.mods == ev.modifiers ==> (binds(k, ev) <==> (c == d
                || (c as u32) + 32 == d as u32 && 'A' <= c <= 'Z' || (d as u32) + 32 == c as u32 && 'A'
                <= d <= 'Z')),
            (KeyCode::Char(_), _) => !binds(k, ev),
            (_, KeyCode::Char(_)) => !binds(k, ev),
            _ => binds(k, ev) <==> k.mods == ev.modifiers && k.code == ev.code,
        },
{
}

} // verus!
