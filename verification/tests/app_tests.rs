use termassist::app::{pane_areas, AgentSpec, AgentStep, App, Focus, Mode, Rect};
use termassist::config::{KeyBindings, KeyCode, KeyEvent, KeyEventKind, KeyMods, Layout};
use termassist::input::{handle_key, handle_mouse, key_scrolls, MouseButton, MouseEvent, MouseEventKind};
use termassist::pane::Pane;

fn live_pane() -> Pane<()> {
    Pane::started("live".to_string(), ())
}

fn dead_pane() -> Pane<()> {
    Pane::failed(
        "dead".to_string(),
        (),
        "failed to spawn `/definitely/not/a/program`: No such file or directory".to_string(),
    )
}

fn agent() -> AgentSpec {
    AgentSpec { program: "/bin/cat".to_string(), args: vec![], env: vec![], cwd: None }
}

/// Carries out an agent step the way the main loop does: a spawn request
/// is answered with a pane whose process started (or not).
fn run_step(app: &mut App<()>, step: AgentStep, spawn_ok: bool) -> String {
    match step {
        AgentStep::Done(msg) => msg,
        AgentStep::Spawn(launch) => {
            let pane = if spawn_ok {
                Pane::started(launch.name, ())
            } else {
                Pane::failed(
                    launch.name,
                    (),
                    format!("failed to spawn `{}`: No such file or directory", launch.spec.program),
                )
            };
            app.finish_spawn_agent(pane)
        }
    }
}

fn toggle_agent(app: &mut App<()>) -> String {
    let step = app.toggle_agent();
    run_step(app, step, true)
}

fn ensure_agent_open(app: &mut App<()>) -> String {
    let step = app.ensure_agent_open();
    run_step(app, step, true)
}

const HALF: u32 = 500_000;

#[test]
fn dead_pane_closes_and_survivor_goes_fullscreen() {
    let mut app = App::new(Some(dead_pane()), Some(live_pane()), Layout::Horizontal, HALF, 10, agent());
    app.set_term_size(80, 24);
    assert!(app.focus == Focus::Left);
    let closed = app.close_dead_panes();
    assert_eq!(closed, vec![0]);
    assert!(app.left.is_none());
    assert!(app.right.is_some());
    assert_eq!(app.focus, Focus::Right, "survivor gets focus");
    let (la, ra) = app.rects();
    assert!(la.is_none());
    assert_eq!(ra, Some(Rect::new(0, 0, 80, 24)), "survivor is fullscreen");
    assert!(!app.all_closed());
    // The survivor's PTY is to be resized to the full screen inside its border.
    assert_eq!(app.take_resizes(), (None, Some((22, 78))));
}

#[test]
fn all_closed_when_both_dead() {
    let mut app = App::new(Some(dead_pane()), Some(dead_pane()), Layout::Horizontal, HALF, 10, agent());
    let closed = app.close_dead_panes();
    assert_eq!(closed, vec![0, 1]);
    assert!(app.all_closed());
    assert_eq!(app.rects(), (None, None));
}

#[test]
fn ensure_agent_open_respawns_then_focuses() {
    let mut app = App::new(None, None, Layout::Horizontal, HALF, 10, agent());
    app.set_term_size(80, 24);
    assert_eq!(ensure_agent_open(&mut app), "agent pane opened");
    assert!(app.right.is_some());
    assert_eq!(app.focus, Focus::Right);
    assert_eq!(ensure_agent_open(&mut app), "agent pane focused");
}

#[test]
fn ensure_agent_open_reports_spawn_failure() {
    let mut app = App::new(
        Some(live_pane()),
        None,
        Layout::Horizontal,
        HALF,
        10,
        AgentSpec {
            program: "/definitely/not/a/program".to_string(),
            args: vec![],
            env: vec![],
            cwd: None,
        },
    );
    app.set_term_size(80, 24);
    let step = app.ensure_agent_open();
    let msg = run_step(&mut app, step, false);
    assert!(msg.starts_with("failed to open agent pane"), "{msg}");
    assert!(app.right.is_none(), "failed respawn leaves pane closed");
}

#[test]
fn toggle_agent_state_machine() {
    let mut app = App::new(Some(live_pane()), None, Layout::Horizontal, HALF, 10, agent());
    app.set_term_size(80, 24);

    // Never started -> spawn and show.
    assert_eq!(toggle_agent(&mut app), "agent pane opened");
    assert!(app.right.is_some());
    assert!(!app.agent_hidden);
    assert_eq!(app.focus, Focus::Right);
    assert!(app.rects().1.is_some(), "split layout restored");

    // Running and visible -> hide (suspend).
    assert_eq!(toggle_agent(&mut app), "agent pane hidden");
    assert!(app.agent_hidden);
    assert!(app.right.as_ref().is_some_and(|p| p.alive));
    assert!(app.right.is_some(), "hidden pane keeps its handle");
    assert_eq!(app.focus, Focus::Left);
    let (la, ra) = app.rects();
    assert_eq!(la, Some(Rect::new(0, 0, 80, 24)), "shell fullscreen while hidden");
    assert!(ra.is_none(), "hidden agent gets no rect");

    // Hidden -> shown again.
    assert_eq!(toggle_agent(&mut app), "agent pane shown");
    assert!(!app.agent_hidden);
    assert_eq!(app.focus, Focus::Right);
    assert!(app.rects().1.is_some());

    // IPC variant: visible -> focused, hidden -> shown.
    assert_eq!(ensure_agent_open(&mut app), "agent pane focused");
    app.agent_hidden = true;
    assert_eq!(ensure_agent_open(&mut app), "agent pane shown");
    assert!(!app.agent_hidden);
}

#[test]
fn zoom_gives_focused_pane_fullscreen() {
    let mut app = App::new(Some(live_pane()), Some(live_pane()), Layout::Horizontal, HALF, 10, agent());
    app.set_term_size(80, 24);
    let full = Rect::new(0, 0, 80, 24);

    app.toggle_zoom();
    assert!(app.zoomed);
    assert_eq!(app.rects(), (Some(full), None));

    app.focus = Focus::Right;
    assert_eq!(app.rects(), (None, Some(full)));

    app.toggle_zoom();
    assert!(!app.zoomed);
    let (la, ra) = app.rects();
    assert!(la.is_some() && ra.is_some());
    assert_ne!(la, Some(full));
}

#[test]
fn zoom_is_cleared_when_a_pane_closes() {
    let mut app = App::new(Some(dead_pane()), Some(live_pane()), Layout::Horizontal, HALF, 10, agent());
    app.set_term_size(80, 24);
    app.toggle_zoom();
    assert!(app.zoomed);
    app.close_dead_panes();
    assert!(!app.zoomed);
}

#[test]
fn dead_agent_is_respawned_by_toggle() {
    let mut app = App::new(Some(live_pane()), Some(dead_pane()), Layout::Horizontal, HALF, 10, agent());
    app.set_term_size(80, 24);
    let closed = app.close_dead_panes();
    assert_eq!(closed, vec![1]);
    assert!(app.right.is_none());
    assert_eq!(toggle_agent(&mut app), "agent pane opened");
    assert!(app.right.as_ref().is_some_and(|p| p.alive));
}

#[test]
fn hidden_agent_unhides_when_shell_dies() {
    let mut app = App::new(Some(dead_pane()), Some(live_pane()), Layout::Horizontal, HALF, 10, agent());
    app.set_term_size(80, 24);
    app.agent_hidden = true;
    let closed = app.close_dead_panes();
    assert_eq!(closed, vec![0]);
    assert!(!app.agent_hidden, "agent unhidden when the shell dies");
    assert_eq!(app.focus, Focus::Right);
    assert_eq!(app.rects().1, Some(Rect::new(0, 0, 80, 24)));
}

#[test]
fn pane_areas_split_and_clamp() {
    let (l, r) = pane_areas((80, 24), Layout::Horizontal, HALF);
    assert_eq!(l, Rect::new(0, 0, 40, 24));
    assert_eq!(r, Rect::new(40, 0, 40, 24));
    let (t, b) = pane_areas((80, 24), Layout::Vertical, 300_000);
    assert_eq!(t, Rect::new(0, 0, 80, 7));
    assert_eq!(b, Rect::new(0, 7, 80, 17));
    // Rounding: 81 * 0.5 = 40.5 rounds up.
    assert_eq!(pane_areas((81, 24), Layout::Horizontal, HALF).0.width, 41);
    // Each side keeps at least 2 cells.
    assert_eq!(pane_areas((10, 24), Layout::Horizontal, 100_000).0.width, 2);
    assert_eq!(pane_areas((10, 24), Layout::Horizontal, 900_000).0.width, 8);
    assert_eq!(pane_areas((3, 24), Layout::Horizontal, 900_000), (Rect::new(0, 0, 2, 24), Rect::new(2, 0, 1, 24)));
}

#[test]
fn agent_launch_describes_the_spawn() {
    let mut app = App::new(
        Some(live_pane()),
        None,
        Layout::Horizontal,
        HALF,
        10,
        AgentSpec {
            program: "kimi".to_string(),
            args: vec!["--verbose".to_string()],
            env: vec![("TERM_ASSIST_SOCK".to_string(), "/tmp/s".to_string())],
            cwd: Some("/home/u".to_string()),
        },
    );
    app.set_term_size(80, 24);
    match app.toggle_agent() {
        AgentStep::Spawn(l) => {
            assert_eq!(l.name, "agent: kimi \u{2014} /home/u");
            assert_eq!(l.spec.program, "kimi");
            assert_eq!(l.spec.args, vec!["--verbose".to_string()]);
            assert_eq!(l.spec.env, vec![("TERM_ASSIST_SOCK".to_string(), "/tmp/s".to_string())]);
            assert_eq!(l.spec.cwd.as_deref(), Some("/home/u"));
            assert_eq!((l.spec.rows, l.spec.cols), (22, 38));
        }
        AgentStep::Done(m) => panic!("expected a spawn, got {m}"),
    }
}

fn key(code: KeyCode, mods: KeyMods) -> KeyEvent {
    KeyEvent::new(code, mods)
}

#[test]
fn key_bindings_drive_the_app() {
    let kb = KeyBindings::default();
    let mut app = App::new(Some(live_pane()), Some(live_pane()), Layout::Horizontal, HALF, 100, agent());
    app.set_term_size(80, 24);

    assert_eq!(handle_key(&mut app, &kb, key(KeyCode::Char('g'), KeyMods::control()), false), None);
    assert_eq!(app.focus, Focus::Right);
    handle_key(&mut app, &kb, key(KeyCode::Char('t'), KeyMods::control()), false);
    assert_eq!(app.layout, Layout::Vertical);
    handle_key(&mut app, &kb, key(KeyCode::Right, KeyMods::control()), false);
    assert_eq!(app.ratio, 530_000);
    for _ in 0..20 {
        handle_key(&mut app, &kb, key(KeyCode::Right, KeyMods::control()), false);
    }
    assert_eq!(app.ratio, 900_000);
    handle_key(&mut app, &kb, key(KeyCode::Left, KeyMods::control()), false);
    assert_eq!(app.ratio, 870_000);
    handle_key(&mut app, &kb, key(KeyCode::Char('n'), KeyMods::control()), false);
    assert!(app.toggle_agent_requested);

    // Key repeats and releases never trigger the chrome.
    let mut rep = key(KeyCode::Char('q'), KeyMods::control());
    rep.kind = KeyEventKind::Repeat;
    assert_eq!(handle_key(&mut app, &kb, rep, false), Some(vec![0x11]));
    assert!(!app.should_quit);
    rep.kind = KeyEventKind::Release;
    assert_eq!(handle_key(&mut app, &kb, rep, false), None);
    handle_key(&mut app, &kb, key(KeyCode::Char('q'), KeyMods::control()), false);
    assert!(app.should_quit);
}

#[test]
fn scroll_mode_keys() {
    let kb = KeyBindings::default();
    let mut app = App::new(Some(live_pane()), Some(live_pane()), Layout::Horizontal, HALF, 100, agent());
    app.set_term_size(80, 24);
    handle_key(&mut app, &kb, key(KeyCode::Char('s'), KeyMods::control()), false);
    assert_eq!(app.mode, Mode::Scroll);
    handle_key(&mut app, &kb, key(KeyCode::Up, KeyMods::none()), false);
    handle_key(&mut app, &kb, key(KeyCode::Char('k'), KeyMods::none()), false);
    assert_eq!(app.left.as_ref().unwrap().scroll, 2);
    handle_key(&mut app, &kb, key(KeyCode::PageUp, KeyMods::none()), false);
    assert_eq!(app.left.as_ref().unwrap().scroll, 24);
    handle_key(&mut app, &kb, key(KeyCode::Char('g'), KeyMods::none()), false);
    assert_eq!(app.left.as_ref().unwrap().scroll, 100);
    handle_key(&mut app, &kb, key(KeyCode::PageUp, KeyMods::none()), false);
    assert_eq!(app.left.as_ref().unwrap().scroll, 100, "kept within the scrollback");
    // Reaching the bottom leaves scroll mode.
    handle_key(&mut app, &kb, key(KeyCode::PageDown, KeyMods::none()), false);
    handle_key(&mut app, &kb, key(KeyCode::PageDown, KeyMods::none()), false);
    handle_key(&mut app, &kb, key(KeyCode::PageDown, KeyMods::none()), false);
    handle_key(&mut app, &kb, key(KeyCode::PageDown, KeyMods::none()), false);
    handle_key(&mut app, &kb, key(KeyCode::PageDown, KeyMods::none()), false);
    assert_eq!(app.left.as_ref().unwrap().scroll, 0);
    assert_eq!(app.mode, Mode::Normal);
    // Esc leaves scroll mode at the bottom.
    handle_key(&mut app, &kb, key(KeyCode::Char('s'), KeyMods::control()), false);
    handle_key(&mut app, &kb, key(KeyCode::Up, KeyMods::none()), false);
    handle_key(&mut app, &kb, key(KeyCode::Esc, KeyMods::none()), false);
    assert_eq!(app.mode, Mode::Normal);
    assert_eq!(app.left.as_ref().unwrap().scroll, 0);
}

#[test]
fn typed_keys_go_to_the_focused_pane() {
    let kb = KeyBindings::default();
    let mut app = App::new(Some(live_pane()), Some(live_pane()), Layout::Horizontal, HALF, 100, agent());
    app.left.as_mut().unwrap().scroll = 7;
    assert_eq!(handle_key(&mut app, &kb, key(KeyCode::Char('x'), KeyMods::none()), false), Some(b"x".to_vec()));
    assert_eq!(app.left.as_ref().unwrap().scroll, 0, "typing returns to the live view");
    assert_eq!(handle_key(&mut app, &kb, key(KeyCode::Up, KeyMods::none()), true), Some(b"\x1bOA".to_vec()));
    let mut none: App<()> = App::new(None, None, Layout::Horizontal, HALF, 100, agent());
    assert_eq!(handle_key(&mut none, &kb, key(KeyCode::Char('x'), KeyMods::none()), false), None);
}

#[test]
fn prefix_v_toggles_the_zoomed_view() {
    let kb = KeyBindings::default();
    let mut app = App::new(Some(live_pane()), Some(live_pane()), Layout::Horizontal, HALF, 100, agent());
    app.set_term_size(80, 24);
    assert_eq!(handle_key(&mut app, &kb, key(KeyCode::F(9), KeyMods::none()), false), None);
    assert!(app.prefix_pending);
    assert_eq!(handle_key(&mut app, &kb, key(KeyCode::Char('v'), KeyMods::none()), false), None);
    assert!(!app.prefix_pending);
    assert!(app.zoomed);
    assert_eq!(app.rects(), (Some(Rect::new(0, 0, 80, 24)), None));
    handle_key(&mut app, &kb, key(KeyCode::F(9), KeyMods::none()), false);
    handle_key(&mut app, &kb, key(KeyCode::Char('v'), KeyMods::none()), false);
    assert!(!app.zoomed);
}

fn mouse(kind: MouseEventKind, column: u16, row: u16) -> MouseEvent {
    MouseEvent { kind, column, row, modifiers: KeyMods::none() }
}

#[test]
fn mouse_focus_drag_and_wheel() {
    let mut app = App::new(Some(live_pane()), Some(live_pane()), Layout::Horizontal, HALF, 100, agent());
    app.set_term_size(80, 24);
    handle_mouse(&mut app, mouse(MouseEventKind::Down(MouseButton::Left), 60, 5));
    assert_eq!(app.focus, Focus::Right);
    handle_mouse(&mut app, mouse(MouseEventKind::Down(MouseButton::Left), 10, 5));
    assert_eq!(app.focus, Focus::Left);
    // The divider is the columns 39 and 40.
    handle_mouse(&mut app, mouse(MouseEventKind::Down(MouseButton::Left), 40, 5));
    assert!(app.dragging);
    handle_mouse(&mut app, mouse(MouseEventKind::Drag(MouseButton::Left), 20, 5));
    assert_eq!(app.ratio, 250_000);
    handle_mouse(&mut app, mouse(MouseEventKind::Drag(MouseButton::Left), 2, 5));
    assert_eq!(app.ratio, 100_000);
    handle_mouse(&mut app, mouse(MouseEventKind::Up(MouseButton::Left), 2, 5));
    assert!(!app.dragging);
    handle_mouse(&mut app, mouse(MouseEventKind::Drag(MouseButton::Left), 40, 5));
    assert_eq!(app.ratio, 100_000, "no drag after release");
    handle_mouse(&mut app, mouse(MouseEventKind::ScrollUp, 60, 5));
    assert_eq!(app.right.as_ref().unwrap().scroll, 3);
    assert_eq!(app.left.as_ref().unwrap().scroll, 0);
    handle_mouse(&mut app, mouse(MouseEventKind::ScrollDown, 60, 5));
    handle_mouse(&mut app, mouse(MouseEventKind::ScrollDown, 60, 5));
    assert_eq!(app.right.as_ref().unwrap().scroll, 0);
}

#[test]
fn poll_alive_marks_exited_panes() {
    let mut app = App::new(Some(live_pane()), Some(live_pane()), Layout::Horizontal, HALF, 10, agent());
    app.poll_alive(false, true);
    assert!(app.left.as_ref().unwrap().alive);
    assert!(!app.right.as_ref().unwrap().alive);
    assert_eq!(app.close_dead_panes(), vec![1]);
}

#[test]
fn focus_other_switches() {
    assert_eq!(Focus::Left.other(), Focus::Right);
    assert_eq!(Focus::Right.other(), Focus::Left);
    assert_eq!(App::<()>::inner_size(Rect::new(0, 0, 1, 1)), (1, 1));
    assert_eq!(App::<()>::inner_size(Rect::new(0, 0, 40, 24)), (22, 38));
}

#[test]
fn only_scroll_keys_in_scroll_mode_scroll() {
    let mut app = App::new(Some(live_pane()), None, Layout::Horizontal, HALF, 100, agent());
    let kb = KeyBindings::default();
    let up = KeyEvent::new(KeyCode::Up, KeyMods::none());
    let k = KeyEvent::new(KeyCode::Char('k'), KeyMods::none());
    let esc = KeyEvent::new(KeyCode::Esc, KeyMods::none());
    let quit = KeyEvent::new(KeyCode::Char('q'), KeyMods::control());
    assert!(!key_scrolls(&app, &kb, up), "normal mode");
    app.mode = Mode::Scroll;
    assert!(key_scrolls(&app, &kb, up));
    assert!(key_scrolls(&app, &kb, k));
    assert!(!key_scrolls(&app, &kb, esc));
    assert!(!key_scrolls(&app, &kb, quit), "taken by a binding");
    app.prefix_pending = true;
    assert!(!key_scrolls(&app, &kb, up), "taken by the prefix");
}
