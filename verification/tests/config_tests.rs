use termassist::config::{
    check_fields, default_config_toml, prompt_agent_command, should_run_wizard, startup,
    wizard_echo, wizard_prompt, Config, ConfigFields, ConfigFile, KeyBind, KeyBindings, KeyCode,
    KeyEvent, KeyMods, Layout, Startup,
};

#[test]
fn keybind_parse_variants() {
    assert_eq!(
        KeyBind::parse("ctrl+shift+Left").unwrap(),
        KeyBind::new(KeyMods::control().union(KeyMods::shift()), KeyCode::Left)
    );
    assert_eq!(
        KeyBind::parse("Alt+X").unwrap(),
        KeyBind::new(KeyMods::alt(), KeyCode::Char('x'))
    );
    assert_eq!(
        KeyBind::parse("F5").unwrap(),
        KeyBind::new(KeyMods::none(), KeyCode::F(5))
    );
    assert!(KeyBind::parse("Ctrl+").is_err());
    assert!(KeyBind::parse("banana").is_err());
}

#[test]
fn keybind_matches_event() {
    let kb = KeyBind::new(KeyMods::control(), KeyCode::Char('g'));
    let ev = KeyEvent::new(KeyCode::Char('g'), KeyMods::control());
    assert!(kb.matches(&ev));
    let ev2 = KeyEvent::new(KeyCode::Char('g'), KeyMods::none());
    assert!(!kb.matches(&ev2));
}

#[test]
fn keybind_parse_error_messages() {
    assert_eq!(
        KeyBind::parse("Ctrl+").unwrap_err(),
        "binding 'Ctrl+' has no key"
    );
    assert_eq!(
        KeyBind::parse("banana").unwrap_err(),
        "unknown key 'banana' in binding 'banana'"
    );
    assert_eq!(
        KeyBind::parse(" Ctrl + wat + x").unwrap_err(),
        "unknown key 'wat' in binding ' Ctrl + wat + x'"
    );
}

#[test]
fn keybind_parse_names_and_edge_cases() {
    assert_eq!(KeyBind::parse("Ctrl+F12").unwrap(), KeyBind::new(KeyMods::control(), KeyCode::F(12)));
    assert_eq!(KeyBind::parse("f012").unwrap(), KeyBind::new(KeyMods::none(), KeyCode::F(12)));
    assert!(KeyBind::parse("F13").is_err());
    assert!(KeyBind::parse("F0").is_err());
    assert_eq!(KeyBind::parse("F").unwrap(), KeyBind::new(KeyMods::none(), KeyCode::Char('f')));
    assert_eq!(KeyBind::parse("meta+Space").unwrap(), KeyBind::new(KeyMods::alt(), KeyCode::Char(' ')));
    assert_eq!(KeyBind::parse("Control+PageDown").unwrap(), KeyBind::new(KeyMods::control(), KeyCode::PageDown));
    assert_eq!(KeyBind::parse("del").unwrap(), KeyBind::new(KeyMods::none(), KeyCode::Delete));
    assert_eq!(KeyBind::parse("Return").unwrap(), KeyBind::new(KeyMods::none(), KeyCode::Enter));
    // The last key named wins; blank parts are skipped.
    assert_eq!(KeyBind::parse("a++b").unwrap(), KeyBind::new(KeyMods::none(), KeyCode::Char('b')));
    assert!(KeyBind::parse("").is_err());
    assert!(KeyBind::parse("Ctrl+Shift").is_err());
}

#[test]
fn keybind_matches_letters_in_either_case() {
    let kb = KeyBind::parse("Alt+x").unwrap();
    assert!(kb.matches(&KeyEvent::new(KeyCode::Char('X'), KeyMods::alt())));
    assert!(!kb.matches(&KeyEvent::new(KeyCode::Char('x'), KeyMods::control())));
    assert!(!kb.matches(&KeyEvent::new(KeyCode::Char('y'), KeyMods::alt())));
}

#[test]
fn default_bindings_and_config() {
    let kb = KeyBindings::default();
    assert_eq!(kb.focus_toggle, KeyBind::new(KeyMods::control(), KeyCode::Char('g')));
    assert_eq!(kb.toggle_agent, KeyBind::new(KeyMods::control(), KeyCode::Char('n')));
    assert_eq!(kb.ratio_increase, KeyBind::new(KeyMods::control(), KeyCode::Right));
    let c = Config::default();
    assert_eq!(c.agent, "kimi");
    assert_eq!(c.shell, None);
    assert_eq!(c.layout, Layout::Horizontal);
    assert_eq!(c.ratio_ppm, 500_000);
    assert_eq!(c.scrollback_lines, 10_000);
    assert_eq!(c.resolved_shell("/bin/sh"), "/bin/sh");
    let mut c2 = c.clone();
    c2.shell = Some("/bin/zsh".to_string());
    assert_eq!(c2.resolved_shell("/bin/sh"), "/bin/zsh");
    c2.ratio_ppm = 950_000;
    assert_eq!(c2.clamped_ratio(), 900_000);
    c2.ratio_ppm = 0;
    assert_eq!(c2.clamped_ratio(), 100_000);
}

#[test]
fn layout_flips() {
    assert_eq!(Layout::Horizontal.flipped(), Layout::Vertical);
    assert_eq!(Layout::Vertical.flipped(), Layout::Horizontal);
    assert_eq!(Layout::Vertical.flipped().flipped(), Layout::Vertical);
}

#[test]
fn prompt_agent_command_takes_input_verbatim() {
    let agent = prompt_agent_command(Some("codex --verbose\n"));
    assert_eq!(agent, Some("codex --verbose".to_string()));
    let shown = wizard_prompt("/tmp/x/config.toml");
    assert!(shown.contains("first run"));
    assert!(shown.contains("/tmp/x/config.toml"));
}

#[test]
fn prompt_agent_command_none_on_empty_blank_or_eof() {
    for input_text in ["\n", "  \t \n", ""] {
        let agent = prompt_agent_command(Some(input_text));
        assert_eq!(agent, None, "input {input_text:?} should mean 'not configured'");
    }
    assert_eq!(prompt_agent_command(None), None);
}

#[test]
fn wizard_echo_shows_agent_and_path() {
    let echo = wizard_echo("codex --verbose", "/home/u/.config/termassist/config.toml");
    assert!(echo.contains("agent = \"codex --verbose\""), "{echo}");
    assert!(echo.contains("/home/u/.config/termassist/config.toml"), "{echo}");
    assert_eq!(
        echo,
        "agent = \"codex --verbose\"\ntermassist: config written to /home/u/.config/termassist/config.toml"
    );
}

#[test]
fn default_config_toml_roundtrips_with_chosen_agent() {
    let text = default_config_toml("codex --verbose");
    let t: toml::Table = text.parse().unwrap();
    assert_eq!(t["agent"].as_str(), Some("codex --verbose"));
    assert!((t["ratio"].as_float().unwrap() - 0.5).abs() < f64::EPSILON);
    assert_eq!(t["layout"].as_str(), Some("horizontal"));
    assert_eq!(t["scrollback_lines"].as_integer(), Some(10_000));
    let kb = t["keybindings"].as_table().unwrap();
    assert_eq!(
        KeyBind::parse(kb["toggle_agent"].as_str().unwrap()).unwrap(),
        KeyBind::new(KeyMods::control(), KeyCode::Char('n'))
    );
    let defaults = KeyBindings::default();
    assert_eq!(KeyBind::parse(kb["quit"].as_str().unwrap()).unwrap(), defaults.quit);
    assert_eq!(KeyBind::parse(kb["ratio_decrease"].as_str().unwrap()).unwrap(), defaults.ratio_decrease);
}

#[test]
fn default_config_toml_escapes_quotes_and_backslashes() {
    let agent = "say \"hi\" C:\\bin";
    let text = default_config_toml(agent);
    assert!(text.contains("agent = \"say \\\"hi\\\" C:\\\\bin\""), "{text}");
    let t: toml::Table = text.parse().unwrap();
    assert_eq!(t["agent"].as_str(), Some(agent));
}

#[test]
fn wizard_decision_truth_table() {
    assert!(should_run_wizard(false, true));
    assert!(!should_run_wizard(true, true), "existing config: stay silent");
    assert!(!should_run_wizard(false, false), "non-interactive: skip");
    assert!(!should_run_wizard(true, false));
}

fn fields(agent: Option<&str>) -> ConfigFields {
    ConfigFields {
        agent: agent.map(|a| a.to_string()),
        shell: Some("/bin/zsh".to_string()),
        layout: Layout::Vertical,
        ratio_ppm: 300_000,
        scrollback_lines: 42,
        keybindings: KeyBindings::default(),
    }
}

#[test]
fn config_fields_need_an_agent() {
    let c = check_fields(fields(Some("codex --verbose"))).unwrap();
    assert_eq!(c.agent, "codex --verbose");
    assert_eq!(c.shell.as_deref(), Some("/bin/zsh"));
    assert_eq!(c.layout, Layout::Vertical);
    assert_eq!(c.ratio_ppm, 300_000);
    assert_eq!(c.scrollback_lines, 42);
    assert_eq!(check_fields(fields(None)).unwrap_err(), "missing field `agent`");
}

#[test]
fn startup_decisions() {
    assert!(matches!(startup(ConfigFile::Missing, true), Startup::Wizard { problem: None }));
    match startup(ConfigFile::Missing, false) {
        Startup::Tui(c) => {
            assert_eq!(c.agent, "kimi");
            assert_eq!(c.ratio_ppm, 500_000);
        }
        other => panic!("{other:?}"),
    }
    let valid = check_fields(fields(Some("pi"))).unwrap();
    match startup(ConfigFile::Valid(valid), false) {
        Startup::Tui(c) => assert_eq!(c.agent, "pi"),
        other => panic!("{other:?}"),
    }
    match startup(ConfigFile::Invalid("bad".to_string()), true) {
        Startup::Wizard { problem } => assert_eq!(problem.as_deref(), Some("bad")),
        other => panic!("{other:?}"),
    }
    match startup(ConfigFile::Invalid("bad".to_string()), false) {
        Startup::Fail(m) => assert_eq!(m, "bad"),
        other => panic!("{other:?}"),
    }
}

#[test]
fn binding_names_ignore_case() {
    for s in ["Ctrl+Shift+Left", "ALT+f5", "ctrl+G", "Ctrl+Bogus", "shift+"] {
        assert_eq!(KeyBind::parse(s).ok(), KeyBind::parse(&s.to_ascii_lowercase()).ok(), "{s}");
        assert_eq!(KeyBind::parse(s).ok(), KeyBind::parse(&s.to_ascii_uppercase()).ok(), "{s}");
    }
    assert_eq!(KeyBind::parse("Ctrl+G").unwrap().code, KeyCode::Char('g'));
}
